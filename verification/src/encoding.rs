use vstd::prelude::*;

verus! {

/// The character, as an ASCII byte, of base64 digit `n` (0 to 63) in the
/// standard alphabet: `A`–`Z`, `a`–`z`, `0`–`9`, `+`, `/`.
pub open spec fn base64_digit(n: int) -> u8 {
    if n < 26 {
        (65 + n) as u8
    } else if n < 52 {
        (97 + (n - 26)) as u8
    } else if n < 62 {
        (48 + (n - 52)) as u8
    } else if n == 62 {
        43u8
    } else {
        47u8
    }
}

/// The standard base64 text, with `=` padding, of `s`, as ASCII bytes: each
/// group of three bytes becomes four digits of six bits each; a last group
/// of one or two bytes is padded to four characters.
pub open spec fn base64(s: Seq<u8>) -> Seq<u8>
    decreases s.len(),
{
    if s.len() == 0 {
        seq![]
    } else if s.len() == 1 {
        let a = s[0] as int;
        seq![base64_digit(a / 4), base64_digit((a % 4) * 16), 61u8, 61u8]
    } else if s.len() == 2 {
        let a = s[0] as int;
        let b = s[1] as int;
        seq![base64_digit(a / 4), base64_digit((a % 4) * 16 + b / 16), base64_digit((b % 16) * 4), 61u8]
    } else {
        let a = s[0] as int;
        let b = s[1] as int;
        let c = s[2] as int;
        seq![base64_digit(a / 4), base64_digit((a % 4) * 16 + b / 16), base64_digit((b % 16) * 4 + c / 64), base64_digit(c % 64)]
            + base64(s.skip(3))
    }
}

fn digit(n: u8) -> (r: u8)
    requires
        n < 64,
    ensures
        r == base64_digit(n as int),
{
    if n < 26 {
        65 + n
    } else if n < 52 {
        97 + (n - 26)
    } else if n < 62 {
        48 + (n - 52)
    } else if n == 62 {
        43
    } else {
        47
    }
}

/// Encodes bytes as standard base64 text with `=` padding.
pub fn base64_encode(bytes: &Vec<u8>) -> (r: Vec<u8>)
    ensures
        r@ == base64(bytes@),
{
    let n = bytes.len();
    let ghost s = bytes@;
    let mut out: Vec<u8> = Vec::new();
    let mut i: usize = 0;
    assert(s.skip(0) =~= s);
    while n - i >= 3
        invariant
            n == bytes.len(),
            s == bytes@,
            i <= n,
            out@ + base64(s.skip(i as int)) == base64(s),
        decreases n - i,
    {
        let a = bytes[i];
        let b = bytes[i + 1];
        let c = bytes[i + 2];
        let ghost t = s.skip(i as int);
        assert(t.skip(3) =~= s.skip(i + 3));
        assert(t[0] == a && t[1] == b && t[2] == c);
        let ghost quad = seq![
            base64_digit(a as int / 4),
            base64_digit((a as int % 4) * 16 + b as int / 16),
            base64_digit((b as int % 16) * 4 + c as int / 64),
            base64_digit(c as int % 64),
        ];
        assert(base64(t) == quad + base64(s.skip(i + 3)));
        let ghost before = out@;
        out.push(digit(a / 4));
        out.push(digit((a % 4) * 16 + b / 16));
        out.push(digit((b % 16) * 4 + c / 64));
        out.push(digit(c % 64));
        assert(out@ =~= before + quad);
        assert(out@ + base64(s.skip(i + 3)) =~= before + (quad + base64(s.skip(i + 3))));
        i += 3;
    }
    let ghost t = s.skip(i as int);
    let ghost before = out@;
    if n - i == 1 {
        let a = bytes[i];
        assert(t[0] == a);
        out.push(digit(a / 4));
        out.push(digit((a % 4) * 16));
        out.push(61);
        out.push(61);
        assert(out@ =~= before + base64(t));
    } else if n - i == 2 {
        let a = bytes[i];
        let b = bytes[i + 1];
        assert(t[0] == a && t[1] == b);
        out.push(digit(a / 4));
        out.push(digit((a % 4) * 16 + b / 16));
        out.push(digit((b % 16) * 4));
        out.push(61);
        assert(out@ =~= before + base64(t));
    } else {
        assert(out@ =~= before + base64(t));
    }
    out
}

} // verus!
