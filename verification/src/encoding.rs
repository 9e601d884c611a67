//! Base64 as RFC 4648 defines it, stated over sequences.
use vstd::prelude::*;

verus! {

/// The symbol for a 6-bit value; `url_safe` selects the URL-safe alphabet.
pub open spec fn b64_symbol(v: int, url_safe: bool) -> char {
    if v < 26 {
        (('A' as int) + v) as char
    } else if v < 52 {
        (('a' as int) + v - 26) as char
    } else if v < 62 {
        (('0' as int) + v - 52) as char
    } else if v == 62 {
        if url_safe {
            '-'
        } else {
            '+'
        }
    } else {
        if url_safe {
            '_'
        } else {
            '/'
        }
    }
}

/// Base64 encoding of `b`: each group of three bytes becomes four symbols; a final
/// group of one or two bytes becomes two or three symbols, followed by `=` padding
/// to four when `pad` holds.
pub open spec fn b64_encode(b: Seq<u8>, url_safe: bool, pad: bool) -> Seq<char>
    decreases b.len(),
{
    if b.len() == 0 {
        Seq::empty()
    } else if b.len() == 1 {
        let x = b[0] as int;
        seq![b64_symbol(x / 4, url_safe), b64_symbol((x % 4) * 16, url_safe)] + (if pad {
            seq!['=', '=']
        } else {
            Seq::empty()
        })
    } else if b.len() == 2 {
        let x = b[0] as int;
        let y = b[1] as int;
        seq![
            b64_symbol(x / 4, url_safe),
            b64_symbol((x % 4) * 16 + y / 16, url_safe),
            b64_symbol((y % 16) * 4, url_safe),
        ] + (if pad {
            seq!['=']
        } else {
            Seq::empty()
        })
    } else {
        let x = b[0] as int;
        let y = b[1] as int;
        let z = b[2] as int;
        seq![
            b64_symbol(x / 4, url_safe),
            b64_symbol((x % 4) * 16 + y / 16, url_safe),
            b64_symbol((y % 16) * 4 + z / 64, url_safe),
            b64_symbol(z % 64, url_safe),
        ] + b64_encode(b.skip(3), url_safe, pad)
    }
}

/// The lowercase hexadecimal digit for `d` in `0..16`.
pub open spec fn hex_digit(d: int) -> char {
    if d < 10 {
        (('0' as int) + d) as char
    } else {
        (('a' as int) + d - 10) as char
    }
}

pub fn hex_digit_of(d: u128) -> (c: char)
    requires
        d < 16,
    ensures
        c == hex_digit(d as int),
{
    if d < 10 {
        proof {
            assert(('0' as u32) + (d as u32) == ('0' as int) + d);
        }
        char_of_code((('0' as u32) + (d as u32)))
    } else {
        char_of_code((('a' as u32) + (d as u32) - 10))
    }
}

fn char_of_code(v: u32) -> (c: char)
    requires
        0x30 <= v <= 0x7a,
    ensures
        c as u32 == v,
{
    let b: u8 = v as u8;
    b as char
}

/// The `n` lowest hexadecimal digits of `v`, most significant first (zero-padded).
pub open spec fn hex_fixed(v: nat, n: nat) -> Seq<char>
    decreases n,
{
    if n == 0 {
        Seq::empty()
    } else {
        hex_fixed(v / 16, (n - 1) as nat).push(hex_digit((v % 16) as int))
    }
}

/// `format!("{:x}", v)`: lowercase hexadecimal without leading zeros.
pub open spec fn lower_hex(v: nat) -> Seq<char>
    decreases v,
{
    if v < 16 {
        seq![hex_digit(v as int)]
    } else {
        lower_hex(v / 16).push(hex_digit((v % 16) as int))
    }
}

pub fn hex_fixed_digits(v: u128, n: usize) -> (r: Vec<char>)
    ensures
        r@ == hex_fixed(v as nat, n as nat),
    decreases n,
{
    if n == 0 {
        Vec::new()
    } else {
        let mut r = hex_fixed_digits(v / 16, n - 1);
        r.push(hex_digit_of(v % 16));
        r
    }
}

/// Append `format!("{:x}", v)` to `out`.
pub fn push_lower_hex(v: u64, out: &mut String)
    ensures
        final(out)@ == old(out)@ + lower_hex(v as nat),
    decreases v,
{
    if v >= 16 {
        push_lower_hex(v / 16, out);
    }
    out.push(hex_digit_of((v % 16) as u128));
    proof {
        if v >= 16 {
            assert(lower_hex(v as nat) == lower_hex((v / 16) as nat).push(hex_digit((v % 16) as int)));
        }
    }
}

/// The hyphenated lowercase text of a UUID (`8-4-4-4-12` hexadecimal digits), as
/// `uuid::Uuid`'s `Display` writes it.
pub open spec fn uuid_text(v: u128) -> Seq<char> {
    let h = hex_fixed(v as nat, 32);
    h.subrange(0, 8) + seq!['-'] + h.subrange(8, 12) + seq!['-'] + h.subrange(12, 16) + seq!['-']
        + h.subrange(16, 20) + seq!['-'] + h.subrange(20, 32)
}

pub proof fn lemma_hex_fixed_len(v: nat, n: nat)
    ensures
        hex_fixed(v, n).len() == n,
    decreases n,
{
    if n > 0 {
        lemma_hex_fixed_len(v / 16, (n - 1) as nat);
    }
}

/// `16` to the power `n`.
pub open spec fn pow16(n: nat) -> nat
    decreases n,
{
    if n == 0 {
        1
    } else {
        16 * pow16((n - 1) as nat)
    }
}

proof fn lemma_hex_digit_injective(a: int, b: int)
    requires
        0 <= a < 16,
        0 <= b < 16,
        hex_digit(a) == hex_digit(b),
    ensures
        a == b,
{
    let ca = hex_digit(a);
    let cb = hex_digit(b);
    assert(ca as int == (if a < 10 { 48 + a } else { 97 + a - 10 }));
    assert(cb as int == (if b < 10 { 48 + b } else { 97 + b - 10 }));
}

/// Equal fixed-width digit strings come from values equal modulo `16^n`.
proof fn lemma_hex_fixed_injective(v: nat, w: nat, n: nat)
    requires
        hex_fixed(v, n) == hex_fixed(w, n),
    ensures
        pow16(n) > 0,
        v % pow16(n) == w % pow16(n),
    decreases n,
{
    if n > 0 {
        let hv = hex_fixed(v, n);
        let hw = hex_fixed(w, n);
        assert(hv.drop_last() == hex_fixed(v / 16, (n - 1) as nat));
        assert(hw.drop_last() == hex_fixed(w / 16, (n - 1) as nat));
        assert(hv.last() == hex_digit((v % 16) as int));
        assert(hw.last() == hex_digit((w % 16) as int));
        lemma_hex_digit_injective((v % 16) as int, (w % 16) as int);
        lemma_hex_fixed_injective(v / 16, w / 16, (n - 1) as nat);
        let p = pow16((n - 1) as nat);
        vstd::arithmetic::div_mod::lemma_mod_breakdown(v as int, 16, p as int);
        vstd::arithmetic::div_mod::lemma_mod_breakdown(w as int, 16, p as int);
    }
}

/// Distinct UUID values have distinct texts.
pub proof fn lemma_uuid_text_injective(v: u128, w: u128)
    requires
        uuid_text(v) == uuid_text(w),
    ensures
        v == w,
{
    let hv = hex_fixed(v as nat, 32);
    let hw = hex_fixed(w as nat, 32);
    lemma_hex_fixed_len(v as nat, 32);
    lemma_hex_fixed_len(w as nat, 32);
    let u = uuid_text(v);
    assert(hv =~= u.subrange(0, 8) + u.subrange(9, 13) + u.subrange(14, 18) + u.subrange(19, 23)
        + u.subrange(24, 36));
    assert(hw =~= u.subrange(0, 8) + u.subrange(9, 13) + u.subrange(14, 18) + u.subrange(19, 23)
        + u.subrange(24, 36));
    lemma_hex_fixed_injective(v as nat, w as nat, 32);
    assert(pow16(32) == 0x1_0000_0000_0000_0000_0000_0000_0000_0000) by {
        reveal_with_fuel(pow16, 33);
    }
}

/// Format a UUID value as hyphenated lowercase text.
pub fn uuid_string(v: u128) -> (r: String)
    ensures
        r@ == uuid_text(v),
{
    let h = hex_fixed_digits(v, 32);
    proof {
        lemma_hex_fixed_len(v as nat, 32);
    }
    let mut out = String::new();
    let mut i: usize = 0;
    while i < 32
        invariant
            h@ == hex_fixed(v as nat, 32),
            h@.len() == 32,
            i <= 32,
            out@ == uuid_prefix(h@, i as int),
        decreases 32 - i,
    {
        if i == 8 || i == 12 || i == 16 || i == 20 {
            out.push('-');
        }
        out.push(h[i]);
        i = i + 1;
    }
    proof {
        lemma_uuid_prefix_full(h@);
    }
    out
}

proof fn lemma_uuid_prefix_step(h: Seq<char>, i: int)
    requires
        0 <= i,
    ensures
        uuid_prefix(h, i + 1) == (if i == 8 || i == 12 || i == 16 || i == 20 {
            uuid_prefix(h, i).push('-')
        } else {
            uuid_prefix(h, i)
        }).push(h[i]),
{
}

proof fn lemma_uuid_prefix_chunk(h: Seq<char>, a: int, b: int)
    requires
        0 <= a <= b <= h.len(),
        8 <= a || b <= 8,
        12 <= a || b <= 12,
        16 <= a || b <= 16,
        20 <= a || b <= 20,
    ensures
        uuid_prefix(h, b) == uuid_prefix(h, a) + (if a < b && (a == 8 || a == 12 || a == 16 || a
            == 20) {
            seq!['-']
        } else {
            Seq::empty()
        }) + h.subrange(a, b),
    decreases b - a,
{
    if a == b {
        assert(uuid_prefix(h, a) + Seq::<char>::empty() + h.subrange(a, a) =~= uuid_prefix(h, a));
    } else {
        lemma_uuid_prefix_chunk(h, a, b - 1);
        lemma_uuid_prefix_step(h, b - 1);
        if a == b - 1 {
            assert(uuid_prefix(h, a) + Seq::<char>::empty() + h.subrange(a, a) =~= uuid_prefix(h, a));
        }
        assert(h.subrange(a, b - 1).push(h[b - 1]) =~= h.subrange(a, b));
        let d = if a < b && (a == 8 || a == 12 || a == 16 || a == 20) {
            seq!['-']
        } else {
            Seq::<char>::empty()
        };
        let d1 = if a < b - 1 && (a == 8 || a == 12 || a == 16 || a == 20) {
            seq!['-']
        } else {
            Seq::<char>::empty()
        };
        if a < b - 1 {
            assert(d == d1);
            assert((uuid_prefix(h, a) + d + h.subrange(a, b - 1)).push(h[b - 1]) =~= uuid_prefix(h, a)
                + d + h.subrange(a, b));
        } else {
            assert((if a == 8 || a == 12 || a == 16 || a == 20 {
                uuid_prefix(h, a).push('-')
            } else {
                uuid_prefix(h, a)
            }).push(h[a]) =~= uuid_prefix(h, a) + d + h.subrange(a, b));
        }
    }
}

proof fn lemma_uuid_prefix_full(h: Seq<char>)
    requires
        h.len() == 32,
    ensures
        uuid_prefix(h, 32) == h.subrange(0, 8) + seq!['-'] + h.subrange(8, 12) + seq!['-']
            + h.subrange(12, 16) + seq!['-'] + h.subrange(16, 20) + seq!['-'] + h.subrange(20, 32),
{
    lemma_uuid_prefix_chunk(h, 0, 8);
    lemma_uuid_prefix_chunk(h, 8, 12);
    lemma_uuid_prefix_chunk(h, 12, 16);
    lemma_uuid_prefix_chunk(h, 16, 20);
    lemma_uuid_prefix_chunk(h, 20, 32);
    assert(uuid_prefix(h, 0) == Seq::<char>::empty());
    assert(uuid_prefix(h, 32) =~= h.subrange(0, 8) + seq!['-'] + h.subrange(8, 12) + seq!['-']
        + h.subrange(12, 16) + seq!['-'] + h.subrange(16, 20) + seq!['-'] + h.subrange(20, 32));
}

/// The first `i` digits of `h` with the dashes that precede them.
pub open spec fn uuid_prefix(h: Seq<char>, i: int) -> Seq<char>
    decreases i,
{
    if i <= 0 {
        Seq::empty()
    } else {
        let p = uuid_prefix(h, i - 1);
        let p = if i - 1 == 8 || i - 1 == 12 || i - 1 == 16 || i - 1 == 20 {
            p.push('-')
        } else {
            p
        };
        p.push(h[i - 1])
    }
}

} // verus!
