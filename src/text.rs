use vstd::prelude::*;

verus! {

/// What one character becomes in HTML text: the five characters that can
/// end an element or an attribute value are written as entities.
pub open spec fn escape_char(c: char) -> Seq<char> {
    if c == '<' {
        "&lt;"@
    } else if c == '>' {
        "&gt;"@
    } else if c == '&' {
        "&amp;"@
    } else if c == '"' {
        "&quot;"@
    } else if c == '\'' {
        "&#x27;"@
    } else {
        seq![c]
    }
}

/// A text escaped for HTML, character by character.
pub open spec fn escape_html(s: Seq<char>) -> Seq<char>
    decreases s.len(),
{
    if s.len() == 0 {
        Seq::empty()
    } else {
        escape_html(s.drop_last()) + escape_char(s.last())
    }
}

/// The character of a decimal digit.
pub open spec fn digit_char(d: nat) -> char {
    if d == 0 { '0' }
    else if d == 1 { '1' }
    else if d == 2 { '2' }
    else if d == 3 { '3' }
    else if d == 4 { '4' }
    else if d == 5 { '5' }
    else if d == 6 { '6' }
    else if d == 7 { '7' }
    else if d == 8 { '8' }
    else { '9' }
}

/// The decimal digits of a natural number, without leading zeros.
pub open spec fn digits_of(n: nat) -> Seq<char>
    decreases n,
{
    if n < 10 {
        seq![digit_char(n)]
    } else {
        digits_of(n / 10) + seq![digit_char(n % 10)]
    }
}

/// The decimal text of an integer, with a leading '-' when it is negative.
pub open spec fn int_text(y: int) -> Seq<char> {
    if y < 0 {
        seq!['-'] + digits_of((-y) as nat)
    } else {
        digits_of(y as nat)
    }
}

fn digit_str(d: u64) -> (r: &'static str)
    requires
        d < 10,
    ensures
        r@ == seq![digit_char(d as nat)],
{
    proof {
        reveal_strlit("0");
        reveal_strlit("1");
        reveal_strlit("2");
        reveal_strlit("3");
        reveal_strlit("4");
        reveal_strlit("5");
        reveal_strlit("6");
        reveal_strlit("7");
        reveal_strlit("8");
        reveal_strlit("9");
    }
    let r = if d == 0 { "0" }
    else if d == 1 { "1" }
    else if d == 2 { "2" }
    else if d == 3 { "3" }
    else if d == 4 { "4" }
    else if d == 5 { "5" }
    else if d == 6 { "6" }
    else if d == 7 { "7" }
    else if d == 8 { "8" }
    else { "9" };
    assert(r@ =~= seq![digit_char(d as nat)]);
    r
}

/// Appends the decimal digits of `n` to `out`.
fn append_digits(out: &mut String, n: u64)
    ensures
        final(out)@ == old(out)@ + digits_of(n as nat),
{
    let mut acc = String::new();
    let mut m: u64 = n;
    while m >= 10
        invariant
            digits_of(n as nat) == digits_of(m as nat) + acc@,
        decreases m,
    {
        let d = digit_str(m % 10);
        let mut t = String::from_str(d);
        t.append(acc.as_str());
        proof {
            assert(digits_of(m as nat) == digits_of((m / 10) as nat) + seq![digit_char((m % 10) as nat)]);
            assert(digits_of(m as nat) + acc@ =~= digits_of((m / 10) as nat) + t@);
        }
        acc = t;
        m = m / 10;
    }
    let mut t = String::from_str(digit_str(m));
    t.append(acc.as_str());
    assert(t@ =~= digits_of(n as nat));
    out.append(t.as_str());
}

/// Appends the decimal text of `y` to `out`.
pub fn append_int(out: &mut String, y: i32)
    ensures
        final(out)@ == old(out)@ + int_text(y as int),
{
    if y < 0 {
        proof { reveal_strlit("-"); }
        out.append("-");
        let n: u64 = (-(y as i64)) as u64;
        append_digits(out, n);
        assert(final(out)@ =~= old(out)@ + int_text(y as int));
    } else {
        append_digits(out, y as u64);
    }
}

/// The decimal text of `y`.
pub fn int_to_text(y: i32) -> (r: String)
    ensures
        r@ == int_text(y as int),
{
    let mut r = String::new();
    append_int(&mut r, y);
    assert(r@ =~= int_text(y as int));
    r
}

/// Appends `s`, escaped for HTML, to `out`.
pub fn append_escaped(out: &mut String, s: &str)
    ensures
        final(out)@ == old(out)@ + escape_html(s@),
{
    let n = s.unicode_len();
    let mut i: usize = 0;
    proof {
        assert(s@.subrange(0, 0) =~= Seq::<char>::empty());
        assert(out@ =~= old(out)@ + escape_html(s@.subrange(0, 0)));
    }
    while i < n
        invariant
            n == s@.len(),
            i <= n,
            out@ == old(out)@ + escape_html(s@.subrange(0, i as int)),
        decreases n - i,
    {
        let c = s.get_char(i);
        proof {
            reveal_strlit("&lt;");
            reveal_strlit("&gt;");
            reveal_strlit("&amp;");
            reveal_strlit("&quot;");
            reveal_strlit("&#x27;");
            let t = s@.subrange(0, i + 1);
            assert(t.drop_last() =~= s@.subrange(0, i as int));
            assert(t.last() == c);
        }
        if c == '<' {
            out.append("&lt;");
        } else if c == '>' {
            out.append("&gt;");
        } else if c == '&' {
            out.append("&amp;");
        } else if c == '"' {
            out.append("&quot;");
        } else if c == '\'' {
            out.append("&#x27;");
        } else {
            let one = s.substring_char(i, i + 1);
            assert(one@ =~= seq![c]);
            out.append(one);
        }
        proof {
            assert(out@ =~= old(out)@ + escape_html(s@.subrange(0, i + 1)));
        }
        i = i + 1;
    }
    assert(s@.subrange(0, n as int) =~= s@);
}

/// The text `s` escaped for HTML.
pub fn escape_text(s: &str) -> (r: String)
    ensures
        r@ == escape_html(s@),
{
    let mut r = String::new();
    append_escaped(&mut r, s);
    assert(r@ =~= escape_html(s@));
    r
}

} // verus!
