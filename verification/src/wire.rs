//! The byte-level shapes of the wire format, as mathematics: little-endian
//! integers of a fixed width and the compact length indicator.

use vstd::prelude::*;

verus! {

/// 256 to the power `width`: how many values `width` bytes can tell apart.
pub open spec fn radix(width: nat) -> nat
    decreases width,
{
    if width == 0 {
        1
    } else {
        256 * radix((width - 1) as nat)
    }
}

/// The `width` low-order bytes of `v`, least significant first.
pub open spec fn le_bytes(v: nat, width: nat) -> Seq<u8>
    decreases width,
{
    if width == 0 {
        Seq::empty()
    } else {
        seq![(v % 256) as u8] + le_bytes(v / 256, (width - 1) as nat)
    }
}

/// The number that `bytes` spell when read least significant byte first.
pub open spec fn le_value(bytes: Seq<u8>) -> nat
    decreases bytes.len(),
{
    if bytes.len() == 0 {
        0
    } else {
        bytes[0] as nat + 256 * le_value(bytes.drop_first())
    }
}

/// The concrete values of `radix` at the widths the format uses.
pub proof fn lemma_radix_values()
    ensures
        radix(0) == 1,
        radix(1) == 0x100,
        radix(2) == 0x1_0000,
        radix(4) == 0x1_0000_0000,
        radix(8) == 0x1_0000_0000_0000_0000,
        radix(16) == 0x1_0000_0000_0000_0000_0000_0000_0000_0000,
{
    reveal_with_fuel(radix, 17);
}

/// `le_bytes` yields exactly `width` bytes.
pub proof fn lemma_le_bytes_len(v: nat, width: nat)
    ensures
        le_bytes(v, width).len() == width,
    decreases width,
{
    if width > 0 {
        lemma_le_bytes_len(v / 256, (width - 1) as nat);
    }
}

/// What `bytes` spell is below `radix` of their count.
pub proof fn lemma_le_value_bound(bytes: Seq<u8>)
    ensures
        le_value(bytes) < radix(bytes.len()),
    decreases bytes.len(),
{
    if bytes.len() > 0 {
        lemma_le_value_bound(bytes.drop_first());
    }
}

/// Reading back the bytes of a number that fits in `width` bytes gives the number.
pub proof fn lemma_le_value_of_le_bytes(v: nat, width: nat)
    requires
        v < radix(width),
    ensures
        le_value(le_bytes(v, width)) == v,
    decreases width,
{
    if width > 0 {
        let tail = le_bytes(v / 256, (width - 1) as nat);
        let whole = le_bytes(v, width);
        lemma_le_value_of_le_bytes(v / 256, (width - 1) as nat);
        assert(whole.drop_first() =~= tail);
        assert(whole[0] == (v % 256) as u8);
    }
}

/// Writing out the number that `bytes` spell, at their own width, gives `bytes` back.
pub proof fn lemma_le_bytes_of_le_value(bytes: Seq<u8>)
    ensures
        le_bytes(le_value(bytes), bytes.len()) == bytes,
    decreases bytes.len(),
{
    if bytes.len() > 0 {
        let rest = bytes.drop_first();
        lemma_le_bytes_of_le_value(rest);
        let v = le_value(bytes);
        assert(v % 256 == bytes[0] as nat);
        assert(v / 256 == le_value(rest));
        assert(le_bytes(v, bytes.len()) =~= bytes);
    } else {
        assert(le_bytes(le_value(bytes), bytes.len()) =~= bytes);
    }
}

/// Reads a little-endian integer of `width` bytes off the front of `s`: the number
/// and what follows it. `None` where `s` holds fewer than `width` bytes.
pub open spec fn int_decoding(s: Seq<u8>, width: nat) -> Option<(nat, Seq<u8>)> {
    if s.len() < width {
        None
    } else {
        Some((le_value(s.subrange(0, width as int)), s.subrange(width as int, s.len() as int)))
    }
}

/// Reading an integer that was written at `width` bytes gives it back and leaves
/// what followed it untouched.
pub proof fn lemma_int_round_trip(v: nat, width: nat, rest: Seq<u8>)
    requires
        v < radix(width),
    ensures
        int_decoding(le_bytes(v, width) + rest, width) == Some((v, rest)),
{
    let s = le_bytes(v, width) + rest;
    lemma_le_bytes_len(v, width);
    lemma_le_value_of_le_bytes(v, width);
    assert(s.subrange(0, width as int) =~= le_bytes(v, width));
    assert(s.subrange(width as int, s.len() as int) =~= rest);
}

/// Whatever `int_decoding` accepts is the `width` bytes of the number it gives,
/// followed by the rest it gives.
pub proof fn lemma_int_decoding_exact(s: Seq<u8>, width: nat)
    ensures
        match int_decoding(s, width) {
            Some((v, rest)) => v < radix(width) && s == le_bytes(v, width) + rest,
            None => s.len() < width,
        },
{
    if s.len() >= width {
        let head = s.subrange(0, width as int);
        lemma_le_value_bound(head);
        lemma_le_bytes_of_le_value(head);
        assert(s =~= head + s.subrange(width as int, s.len() as int));
    }
}

/// The compact indicator of a count `n` below 2^32: one, two, four or five bytes,
/// the two low bits of the first byte telling which.
pub open spec fn compact_encoding(n: nat) -> Seq<u8> {
    if n < 0x40 {
        le_bytes(4 * n, 1)
    } else if n < 0x4000 {
        le_bytes(4 * n + 1, 2)
    } else if n < 0x4000_0000 {
        le_bytes(4 * n + 2, 4)
    } else {
        seq![3u8] + le_bytes(n, 4)
    }
}

/// Reads a compact indicator off the front of `s`: the count and what follows it.
/// `None` where `s` ends too early or spells a count in a longer form than it needs.
pub open spec fn compact_decoding(s: Seq<u8>) -> Option<(nat, Seq<u8>)> {
    if s.len() == 0 {
        None
    } else if s[0] % 4 == 0 {
        Some(((s[0] / 4) as nat, s.subrange(1, s.len() as int)))
    } else if s[0] % 4 == 1 {
        if s.len() >= 2 && le_value(s.subrange(0, 2)) / 4 > 0x3f {
            Some((le_value(s.subrange(0, 2)) / 4, s.subrange(2, s.len() as int)))
        } else {
            None
        }
    } else if s[0] % 4 == 2 {
        if s.len() >= 4 && le_value(s.subrange(0, 4)) / 4 > 0x3fff {
            Some((le_value(s.subrange(0, 4)) / 4, s.subrange(4, s.len() as int)))
        } else {
            None
        }
    } else {
        if s[0] == 3 && s.len() >= 5 && le_value(s.subrange(1, 5)) > 0x3fff_ffff {
            Some((le_value(s.subrange(1, 5)), s.subrange(5, s.len() as int)))
        } else {
            None
        }
    }
}

/// A compact indicator is one to five bytes long.
pub proof fn lemma_compact_encoding_len(n: nat)
    ensures
        1 <= compact_encoding(n).len() <= 5,
        n < 0x40 ==> compact_encoding(n).len() == 1,
{
    lemma_le_bytes_len(4 * n, 1);
    lemma_le_bytes_len(4 * n + 1, 2);
    lemma_le_bytes_len(4 * n + 2, 4);
    lemma_le_bytes_len(n, 4);
}

/// Reading a compact indicator that was written for `n` gives `n` and leaves
/// what followed it untouched.
pub proof fn lemma_compact_round_trip(n: nat, rest: Seq<u8>)
    requires
        n <= 0xffff_ffff,
    ensures
        compact_decoding(compact_encoding(n) + rest) == Some((n, rest)),
{
    lemma_radix_values();
    let head = compact_encoding(n);
    let s = head + rest;
    lemma_compact_encoding_len(n);
    if n < 0x40 {
        lemma_le_bytes_len(4 * n, 1);
        assert(head[0] == ((4 * n) % 256) as u8);
        assert(s[0] == head[0]);
        assert(s.subrange(1, s.len() as int) =~= rest);
    } else if n < 0x4000 {
        lemma_le_bytes_len(4 * n + 1, 2);
        lemma_le_value_of_le_bytes(4 * n + 1, 2);
        assert(head[0] == ((4 * n + 1) % 256) as u8);
        assert(s[0] == head[0]);
        assert(s.subrange(0, 2) =~= head);
        assert(s.subrange(2, s.len() as int) =~= rest);
    } else if n < 0x4000_0000 {
        lemma_le_bytes_len(4 * n + 2, 4);
        lemma_le_value_of_le_bytes(4 * n + 2, 4);
        assert(head[0] == ((4 * n + 2) % 256) as u8);
        assert(s[0] == head[0]);
        assert(s.subrange(0, 4) =~= head);
        assert(s.subrange(4, s.len() as int) =~= rest);
    } else {
        lemma_le_bytes_len(n, 4);
        lemma_le_value_of_le_bytes(n, 4);
        assert(s[0] == 3);
        assert(s.subrange(1, 5) =~= le_bytes(n, 4));
        assert(s.subrange(5, s.len() as int) =~= rest);
    }
}

/// Whatever `compact_decoding` accepts is the one compact indicator of the count
/// it gives, followed by the rest it gives: no count has two spellings.
pub proof fn lemma_compact_decoding_exact(s: Seq<u8>)
    ensures
        match compact_decoding(s) {
            Some((n, rest)) => n <= 0xffff_ffff && s == compact_encoding(n) + rest,
            None => true,
        },
{
    lemma_radix_values();
    if s.len() > 0 {
        if s[0] % 4 == 0 {
            let n = (s[0] / 4) as nat;
            lemma_le_bytes_len(4 * n, 1);
            assert(le_bytes(4 * n, 1)[0] == s[0]);
            assert(s =~= compact_encoding(n) + s.subrange(1, s.len() as int));
        } else if s[0] % 4 == 1 {
            if s.len() >= 2 && le_value(s.subrange(0, 2)) / 4 > 0x3f {
                let head = s.subrange(0, 2);
                let v = le_value(head);
                lemma_le_value_bound(head);
                lemma_le_bytes_of_le_value(head);
                assert(v % 256 == head[0] as nat);
                assert(v == 4 * (v / 4) + 1);
                assert(s =~= head + s.subrange(2, s.len() as int));
            }
        } else if s[0] % 4 == 2 {
            if s.len() >= 4 && le_value(s.subrange(0, 4)) / 4 > 0x3fff {
                let head = s.subrange(0, 4);
                let v = le_value(head);
                lemma_le_value_bound(head);
                lemma_le_bytes_of_le_value(head);
                assert(v % 256 == head[0] as nat);
                assert(v == 4 * (v / 4) + 2);
                assert(s =~= head + s.subrange(4, s.len() as int));
            }
        } else {
            if s[0] == 3 && s.len() >= 5 && le_value(s.subrange(1, 5)) > 0x3fff_ffff {
                let body = s.subrange(1, 5);
                lemma_le_value_bound(body);
                lemma_le_bytes_of_le_value(body);
                assert(s =~= (seq![3u8] + body) + s.subrange(5, s.len() as int));
            }
        }
    }
}

/// A compact indicator cut short is refused: no proper prefix of one is a
/// compact indicator itself, and each keeps the first byte, which tells how
/// long the whole is.
pub proof fn lemma_compact_cut_short(n: nat, k: int)
    requires
        n <= 0xffff_ffff,
        0 <= k < compact_encoding(n).len(),
    ensures
        compact_decoding(compact_encoding(n).subrange(0, k)) is None,
        k > 0 ==> compact_encoding(n).subrange(0, k)[0] == compact_encoding(n)[0],
        n < 0x40 ==> k == 0,
        0x40 <= n < 0x4000 ==> compact_encoding(n)[0] % 4 == 1 && k < 2,
        0x4000 <= n < 0x4000_0000 ==> compact_encoding(n)[0] % 4 == 2 && k < 4,
        0x4000_0000 <= n ==> compact_encoding(n)[0] == 3 && k < 5,
{
    let whole = compact_encoding(n);
    lemma_le_bytes_len(4 * n, 1);
    lemma_le_bytes_len(4 * n + 1, 2);
    lemma_le_bytes_len(4 * n + 2, 4);
    lemma_le_bytes_len(n, 4);
    if 0x40 <= n < 0x4000 {
        assert(whole[0] == ((4 * n + 1) % 256) as u8);
    } else if 0x4000 <= n < 0x4000_0000 {
        assert(whole[0] == ((4 * n + 2) % 256) as u8);
    } else if 0x4000_0000 <= n {
        assert(whole[0] == 3);
    }
}

} // verus!
