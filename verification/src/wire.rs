//! The generic pieces of the wire format: a length-prefixed,
//! field-offset table layout.
//!
//! A table with fields `f_0 .. f_{n-1}` is laid out as
//!
//! ```text
//! total_size: u32le | offset_0 .. offset_{n-1}: u32le | f_0 .. f_{n-1}
//! ```
//!
//! where `offset_i` is the position of `f_i` from the start of the
//! table and the fields are contiguous. Vectors of variable-size items
//! use the same layout with one "field" per item; vectors of fixed-size
//! items are a `u32le` item count followed by the items.

use vstd::prelude::*;
use vstd::bytes::*;

use crate::error::Error;

verus! {

/// Sum of the lengths of the field encodings.
pub open spec fn total_len(ss: Seq<Seq<u8>>) -> nat
    decreases ss.len(),
{
    if ss.len() == 0 {
        0
    } else {
        ss[0].len() + total_len(ss.drop_first())
    }
}

/// The fields, concatenated.
pub open spec fn concat_bytes(ss: Seq<Seq<u8>>) -> Seq<u8>
    decreases ss.len(),
{
    if ss.len() == 0 {
        Seq::empty()
    } else {
        ss[0] + concat_bytes(ss.drop_first())
    }
}

/// Byte size of a table with these fields.
pub open spec fn table_size(ss: Seq<Seq<u8>>) -> nat {
    4 + 4 * ss.len() + total_len(ss)
}

/// Position of field `i` from the start of the table.
pub open spec fn table_offset(ss: Seq<Seq<u8>>, i: int) -> nat {
    4 + 4 * ss.len() + total_len(ss.take(i))
}

/// The first `i` offsets, encoded.
pub open spec fn offsets_upto(ss: Seq<Seq<u8>>, i: int) -> Seq<u8>
    decreases i,
{
    if i <= 0 {
        Seq::empty()
    } else {
        offsets_upto(ss, i - 1) + spec_u32_to_le_bytes(table_offset(ss, i - 1) as u32)
    }
}

/// The table encoding of the given field encodings.
pub open spec fn spec_table(ss: Seq<Seq<u8>>) -> Seq<u8> {
    spec_u32_to_le_bytes(table_size(ss) as u32) + offsets_upto(ss, ss.len() as int)
        + concat_bytes(ss)
}

/// A vector of fixed-size items: item count, then the items.
pub open spec fn spec_fixvec(count: nat, items: Seq<u8>) -> Seq<u8> {
    spec_u32_to_le_bytes(count as u32) + items
}

/// The views of a vector of byte vectors.
pub open spec fn field_views(fields: Seq<Vec<u8>>) -> Seq<Seq<u8>> {
    fields.map_values(|f: Vec<u8>| f@)
}

pub proof fn lemma_total_len_take_succ(ss: Seq<Seq<u8>>, i: int)
    requires
        0 <= i < ss.len(),
    ensures
        total_len(ss.take(i + 1)) == total_len(ss.take(i)) + ss[i].len(),
        concat_bytes(ss.take(i + 1)) == concat_bytes(ss.take(i)) + ss[i],
    decreases i,
{
    if i == 0 {
        assert(ss.take(0) =~= Seq::<Seq<u8>>::empty());
        let s1 = ss.take(1);
        assert(s1.len() == 1 && s1[0] == ss[0]);
        assert(s1.drop_first() =~= Seq::<Seq<u8>>::empty());
        assert(concat_bytes(s1) =~= concat_bytes(ss.take(0)) + ss[0]);
    } else {
        let tl = ss.drop_first();
        lemma_total_len_take_succ(tl, i - 1);
        assert(ss.take(i + 1).drop_first() =~= tl.take(i));
        assert(ss.take(i).drop_first() =~= tl.take(i - 1));
        assert(ss.take(i + 1)[0] == ss[0]);
        assert(ss.take(i)[0] == ss[0]);
        assert(tl[i - 1] == ss[i]);
        assert(concat_bytes(ss.take(i + 1)) == ss[0] + concat_bytes(tl.take(i)));
        assert(concat_bytes(ss.take(i)) == ss[0] + concat_bytes(tl.take(i - 1)));
        assert(concat_bytes(ss.take(i + 1)) =~= concat_bytes(ss.take(i)) + ss[i]);
    }
}

pub proof fn lemma_total_len_prefix_le(ss: Seq<Seq<u8>>, i: int)
    requires
        0 <= i <= ss.len(),
    ensures
        total_len(ss.take(i)) <= total_len(ss),
    decreases ss.len() - i,
{
    if i == ss.len() {
        assert(ss.take(i) =~= ss);
    } else {
        lemma_total_len_take_succ(ss, i);
        lemma_total_len_prefix_le(ss, i + 1);
    }
}

/// Each field's encoding is no longer than the whole table.
pub proof fn lemma_field_len_le_total(ss: Seq<Seq<u8>>, i: int)
    requires
        0 <= i < ss.len(),
    ensures
        ss[i].len() <= total_len(ss),
{
    lemma_total_len_take_succ(ss, i);
    lemma_total_len_prefix_le(ss, i + 1);
    assert(total_len(ss.take(i + 1)) >= ss[i].len());
}

pub proof fn lemma_offsets_upto_len(ss: Seq<Seq<u8>>, i: int)
    requires
        0 <= i,
    ensures
        offsets_upto(ss, i).len() == 4 * i,
    decreases i,
{
    lemma_auto_spec_u32_to_from_le_bytes();
    if i > 0 {
        lemma_offsets_upto_len(ss, i - 1);
    }
}

pub proof fn lemma_concat_bytes_len(ss: Seq<Seq<u8>>)
    ensures
        concat_bytes(ss).len() == total_len(ss),
    decreases ss.len(),
{
    if ss.len() > 0 {
        lemma_concat_bytes_len(ss.drop_first());
    }
}

/// The table encoding is exactly `table_size` bytes long.
pub proof fn lemma_spec_table_len(ss: Seq<Seq<u8>>)
    ensures
        spec_table(ss).len() == table_size(ss),
{
    lemma_auto_spec_u32_to_from_le_bytes();
    lemma_offsets_upto_len(ss, ss.len() as int);
    lemma_concat_bytes_len(ss);
}

/// A field's encoding is no longer than the whole table's.
pub proof fn lemma_field_le_table(ss: Seq<Seq<u8>>, i: int)
    requires
        0 <= i < ss.len(),
    ensures
        ss[i].len() < table_size(ss),
        spec_table(ss).len() == table_size(ss),
{
    lemma_field_len_le_total(ss, i);
    lemma_spec_table_len(ss);
}

pub proof fn lemma_concat_extract(ss: Seq<Seq<u8>>, k: int)
    requires
        0 <= k < ss.len(),
    ensures
        total_len(ss.take(k)) <= total_len(ss.take(k + 1)) <= total_len(ss),
        concat_bytes(ss).subrange(
            total_len(ss.take(k)) as int,
            total_len(ss.take(k + 1)) as int,
        ) == ss[k],
    decreases k,
{
    lemma_total_len_take_succ(ss, k);
    lemma_total_len_prefix_le(ss, k + 1);
    lemma_concat_bytes_len(ss);
    if k == 0 {
        assert(ss.take(0) =~= Seq::<Seq<u8>>::empty());
        assert(concat_bytes(ss) == ss[0] + concat_bytes(ss.drop_first()));
        lemma_concat_bytes_len(ss.drop_first());
        assert(concat_bytes(ss).subrange(0, ss[0].len() as int) =~= ss[0]);
    } else {
        let tl = ss.drop_first();
        lemma_concat_extract(tl, k - 1);
        lemma_concat_bytes_len(tl);
        assert(ss.take(k).drop_first() =~= tl.take(k - 1));
        assert(ss.take(k + 1).drop_first() =~= tl.take(k));
        assert(ss.take(k)[0] == ss[0]);
        assert(ss.take(k + 1)[0] == ss[0]);
        assert(total_len(ss.take(k)) == ss[0].len() + total_len(tl.take(k - 1)));
        assert(total_len(ss.take(k + 1)) == ss[0].len() + total_len(tl.take(k)));
        assert(concat_bytes(ss) == ss[0] + concat_bytes(tl));
        assert(tl[k - 1] == ss[k]);
        assert(concat_bytes(ss).subrange(
            total_len(ss.take(k)) as int,
            total_len(ss.take(k + 1)) as int,
        ) =~= concat_bytes(tl).subrange(
            total_len(tl.take(k - 1)) as int,
            total_len(tl.take(k)) as int,
        ));
    }
}

proof fn lemma_offsets_extract(ss: Seq<Seq<u8>>, i: int, k: int)
    requires
        0 <= k < i,
    ensures
        offsets_upto(ss, i).subrange(4 * k, 4 * k + 4) == spec_u32_to_le_bytes(
            table_offset(ss, k) as u32,
        ),
    decreases i,
{
    lemma_auto_spec_u32_to_from_le_bytes();
    lemma_offsets_upto_len(ss, i - 1);
    if k == i - 1 {
        assert(offsets_upto(ss, i).subrange(4 * k, 4 * k + 4) =~= spec_u32_to_le_bytes(
            table_offset(ss, k) as u32,
        ));
    } else {
        lemma_offsets_extract(ss, i - 1, k);
        assert(offsets_upto(ss, i).subrange(4 * k, 4 * k + 4) =~= offsets_upto(
            ss,
            i - 1,
        ).subrange(4 * k, 4 * k + 4));
    }
}

/// Recovers a canonical table's pieces from its bytes: the size header,
/// each offset, and each field.
pub proof fn lemma_table_recover(ss: Seq<Seq<u8>>)
    requires
        table_size(ss) <= u32::MAX,
    ensures
        spec_table(ss).len() == table_size(ss),
        spec_table(ss).subrange(0, 4) == spec_u32_to_le_bytes(table_size(ss) as u32),
        forall|k: int|
            0 <= k < ss.len() ==> spec_table(ss).subrange(4 + 4 * k, 8 + 4 * k)
                == spec_u32_to_le_bytes(#[trigger] table_offset(ss, k) as u32),
        forall|k: int|
            0 <= k < ss.len() ==> spec_table(ss).subrange(
                #[trigger] table_offset(ss, k) as int,
                table_offset(ss, k + 1) as int,
            ) == ss[k],
        forall|k: int|
            0 <= k <= ss.len() ==> 4 + 4 * ss.len() <= #[trigger] table_offset(ss, k)
                <= table_size(ss),
        forall|k: int|
            0 <= k < ss.len() ==> #[trigger] table_offset(ss, k) <= table_offset(ss, k + 1),
        table_offset(ss, 0) == 4 + 4 * ss.len(),
        table_offset(ss, ss.len() as int) == table_size(ss),
{
    let n = ss.len() as int;
    lemma_auto_spec_u32_to_from_le_bytes();
    lemma_spec_table_len(ss);
    lemma_offsets_upto_len(ss, n);
    lemma_concat_bytes_len(ss);
    assert(ss.take(0) =~= Seq::<Seq<u8>>::empty());
    assert(ss.take(n) =~= ss);
    assert forall|k: int| 0 <= k <= ss.len() implies 4 + 4 * ss.len() <= #[trigger] table_offset(
        ss,
        k,
    ) <= table_size(ss) by {
        lemma_total_len_prefix_le(ss, k);
    }
    assert forall|k: int| 0 <= k < ss.len() implies #[trigger] table_offset(ss, k) <= table_offset(
        ss,
        k + 1,
    ) by {
        lemma_total_len_take_succ(ss, k);
    }
    assert(spec_table(ss).subrange(0, 4) =~= spec_u32_to_le_bytes(table_size(ss) as u32));
    assert forall|k: int| 0 <= k < ss.len() implies spec_table(ss).subrange(4 + 4 * k, 8 + 4 * k)
        == spec_u32_to_le_bytes(#[trigger] table_offset(ss, k) as u32) by {
        lemma_offsets_extract(ss, n, k);
        assert(spec_table(ss).subrange(4 + 4 * k, 8 + 4 * k) =~= offsets_upto(ss, n).subrange(
            4 * k,
            4 * k + 4,
        ));
    }
    assert forall|k: int| 0 <= k < ss.len() implies spec_table(ss).subrange(
        #[trigger] table_offset(ss, k) as int,
        table_offset(ss, k + 1) as int,
    ) == ss[k] by {
        lemma_concat_extract(ss, k);
        lemma_total_len_take_succ(ss, k);
        lemma_total_len_prefix_le(ss, k + 1);
        assert(spec_table(ss).subrange(
            table_offset(ss, k) as int,
            table_offset(ss, k + 1) as int,
        ) =~= concat_bytes(ss).subrange(
            total_len(ss.take(k)) as int,
            total_len(ss.take(k + 1)) as int,
        ));
    }
}

/// Emits a table from already-encoded fields. Fails exactly when the
/// table would not fit the 32-bit size header.
pub fn emit_table(fields: &Vec<Vec<u8>>) -> (r: Result<Vec<u8>, Error>)
    ensures
        r is Ok <==> table_size(field_views(fields@)) <= u32::MAX,
        r is Ok ==> r->Ok_0@ == spec_table(field_views(fields@)),
{
    let ghost ss = field_views(fields@);
    let n = fields.len();
    assert(ss.len() == n);

    // sum of the field lengths
    let mut sum: usize = 0;
    let mut i: usize = 0;
    proof {
        assert(ss.take(0) =~= Seq::<Seq<u8>>::empty());
    }
    while i < n
        invariant
            0 <= i <= n,
            n == ss.len(),
            ss == field_views(fields@),
            n == fields@.len(),
            sum == total_len(ss.take(i as int)),
        decreases n - i,
    {
        let l = fields[i].len();
        proof {
            lemma_total_len_take_succ(ss, i as int);
        }
        sum = match sum.checked_add(l) {
            Some(s) => s,
            None => {
                proof {
                    lemma_total_len_prefix_le(ss, i + 1 as int);
                }
                return Err(Error::Encoding);
            },
        };
        i += 1;
    }
    proof {
        assert(ss.take(n as int) =~= ss);
    }

    // header size and total size
    let header: usize = match 4usize.checked_mul(n) {
        Some(h) => h,
        None => {
            return Err(Error::Encoding);
        },
    };
    let header: usize = match header.checked_add(4) {
        Some(h) => h,
        None => {
            return Err(Error::Encoding);
        },
    };
    let total: usize = match header.checked_add(sum) {
        Some(t) => t,
        None => {
            return Err(Error::Encoding);
        },
    };
    if total > u32::MAX as usize {
        return Err(Error::Encoding);
    }
    assert(total == table_size(ss));

    let mut out: Vec<u8> = Vec::new();
    let tb = u32_to_le_bytes(total as u32);
    out.extend_from_slice(tb.as_slice());
    assert(out@ =~= spec_u32_to_le_bytes(table_size(ss) as u32));

    // offsets
    let mut off: usize = header;
    let mut i: usize = 0;
    proof {
        assert(ss.take(0) =~= Seq::<Seq<u8>>::empty());
    }
    while i < n
        invariant
            0 <= i <= n,
            n == ss.len(),
            ss == field_views(fields@),
            n == fields@.len(),
            header == 4 + 4 * n,
            total == table_size(ss),
            total <= u32::MAX,
            off == table_offset(ss, i as int),
            off <= total,
            out@ == spec_u32_to_le_bytes(total as u32) + offsets_upto(ss, i as int),
        decreases n - i,
    {
        proof {
            lemma_total_len_take_succ(ss, i as int);
            lemma_total_len_prefix_le(ss, i + 1 as int);
        }
        let ob = u32_to_le_bytes(off as u32);
        out.extend_from_slice(ob.as_slice());
        off = off + fields[i].len();
        i += 1;
        assert(out@ =~= spec_u32_to_le_bytes(total as u32) + offsets_upto(ss, i as int));
    }

    // field bodies
    let mut i: usize = 0;
    proof {
        assert(ss.take(0) =~= Seq::<Seq<u8>>::empty());
        assert(concat_bytes(ss.take(0)) =~= Seq::<u8>::empty());
        assert(out@ =~= spec_u32_to_le_bytes(total as u32) + offsets_upto(ss, n as int)
            + concat_bytes(ss.take(0)));
    }
    while i < n
        invariant
            0 <= i <= n,
            n == ss.len(),
            ss == field_views(fields@),
            n == fields@.len(),
            total == table_size(ss),
            out@ == spec_u32_to_le_bytes(total as u32) + offsets_upto(ss, n as int)
                + concat_bytes(ss.take(i as int)),
        decreases n - i,
    {
        proof {
            lemma_total_len_take_succ(ss, i as int);
        }
        out.extend_from_slice(fields[i].as_slice());
        i += 1;
        assert(out@ =~= spec_u32_to_le_bytes(total as u32) + offsets_upto(ss, n as int)
            + concat_bytes(ss.take(i as int)));
    }
    proof {
        assert(ss.take(n as int) =~= ss);
    }
    Ok(out)
}

/// Reads the `u32le` at `pos`.
pub fn read_u32_at(bytes: &[u8], pos: usize) -> (r: Option<u32>)
    ensures
        r is Some <==> pos + 4 <= bytes@.len(),
        r is Some ==> r->0 == spec_u32_from_le_bytes(bytes@.subrange(pos as int, pos + 4)),
{
    if pos <= bytes.len() && bytes.len() - pos >= 4 {
        let s = vstd::slice::slice_subrange(bytes, pos, pos + 4);
        Some(u32_from_le_bytes(s))
    } else {
        None
    }
}

/// Reads a table header: checks that the size field matches the slice
/// length and returns the `n + 1` field boundaries (the last one is the
/// slice length). The boundaries are monotone and in bounds; whether
/// the bytes are the canonical encoding of the parsed record is settled
/// by the caller, which re-serializes and compares. A caller that knows
/// the bytes form a canonical table passes its fields as the witness
/// and learns that parsing succeeds with the canonical offsets.
#[verifier::loop_isolation(false)]
pub(crate) fn parse_ranges(
    bytes: &[u8],
    n: usize,
    Ghost(w): Ghost<Option<Seq<Seq<u8>>>>,
) -> (r: Option<Vec<usize>>)
    requires
        w is Some ==> w->0.len() == n && table_size(w->0) <= u32::MAX && bytes@ == spec_table(
            w->0,
        ),
    ensures
        r is Some ==> {
            let bs = r->0@;
            &&& bs.len() == n + 1
            &&& forall|k: int| 0 <= k <= n ==> 4 <= #[trigger] bs[k] <= bytes@.len()
            &&& forall|k: int| 0 <= k < n ==> #[trigger] bs[k] <= bs[k + 1]
            &&& bs[n as int] == bytes@.len()
        },
        w is Some ==> r is Some && forall|k: int|
            0 <= k <= n ==> #[trigger] r->0@[k] == table_offset(w->0, k),
{
    proof {
        if w is Some {
            lemma_table_recover(w->0);
            lemma_auto_spec_u32_to_from_le_bytes();
        }
    }
    if bytes.len() < 4 {
        return None;
    }
    if (bytes.len() - 4) / 4 < n {
        proof {
            if w is Some {
                vstd::arithmetic::div_mod::lemma_fundamental_div_mod(
                    (bytes@.len() - 4) as int,
                    4,
                );
            }
        }
        return None;
    }
    proof {
        vstd::arithmetic::div_mod::lemma_fundamental_div_mod((bytes@.len() - 4) as int, 4);
    }
    let header: usize = 4 + 4 * n;
    if bytes.len() < header {
        return None;
    }
    let total = match read_u32_at(bytes, 0) {
        Some(t) => t,
        None => {
            return None;
        },
    };
    if total as usize != bytes.len() {
        return None;
    }
    let mut bs: Vec<usize> = Vec::new();
    let mut i: usize = 0;
    let mut prev: usize = header;
    while i < n
        invariant
            0 <= i <= n,
            bs@.len() == i,
            4 <= prev <= bytes@.len(),
            forall|k: int| 0 <= k < i ==> 4 <= #[trigger] bs@[k] <= bytes@.len(),
            forall|k: int| 0 <= k < i - 1 ==> #[trigger] bs@[k] <= bs@[k + 1],
            i > 0 ==> bs@[i - 1] == prev,
            i == 0 ==> prev == header,
            w is Some ==> forall|k: int|
                0 <= k < i ==> #[trigger] bs@[k] == table_offset(w->0, k),
            w is Some && i > 0 ==> prev == table_offset(w->0, i - 1),
        decreases n - i,
    {
        let o = match read_u32_at(bytes, 4 + 4 * i) {
            Some(o) => o as usize,
            None => {
                return None;
            },
        };
        proof {
            if w is Some {
                lemma_auto_spec_u32_to_from_le_bytes();
                let off = table_offset(w->0, i as int);
                assert(spec_table(w->0).subrange(4 + 4 * (i as int), 8 + 4 * (i as int))
                    == spec_u32_to_le_bytes(off as u32));
                assert(bytes@.subrange(4 + 4 * (i as int), (4 + 4 * (i as int)) + 4)
                    == spec_u32_to_le_bytes(off as u32));
                assert(spec_u32_from_le_bytes(spec_u32_to_le_bytes(off as u32)) == off
                    as u32) by {
                    lemma_auto_spec_u32_to_from_le_bytes();
                }
                assert(off <= table_size(w->0) <= u32::MAX);
                assert(o == (off as u32) as usize);
                assert(o == off);
            }
        }
        if o < prev || o > bytes.len() {
            return None;
        }
        if i == 0 && o != header {
            return None;
        }
        bs.push(o);
        prev = o;
        i += 1;
    }
    bs.push(bytes.len());
    Some(bs)
}

} // verus!
