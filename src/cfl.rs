//! The paired array files: a data file of little-endian 32-bit floats (carried here
//! as their bit patterns) and a text header whose first two lines are
//! `# Dimensions` and the space-separated dimensions, padded to five with `1`s.
use vstd::prelude::*;
use byteorder::{BigEndian, ByteOrder, LittleEndian};
use crate::table::StrMap;
use crate::text::{
    decimal, lines, lines_of, parse_unsigned, parse_usize, space_char,
    split_state, split_whitespace, ws_tokens, Separator,
};
use crate::utils::{le_u32, spaced_decimals, vec_to_string};

verus! {

/// `b` holds the words of `w`, four bytes each, least significant first.
pub open spec fn encodes_le(w: Seq<u32>, b: Seq<u8>) -> bool {
    &&& b.len() == 4 * w.len()
    &&& forall|i: int| 0 <= i < w.len() ==> le_u32(#[trigger] b.subrange(4 * i, 4 * i + 4)) == w[i] as int
}

/// `v` holds the 16-bit values of `b`, two bytes each, most significant first.
pub open spec fn encodes_be16(v: Seq<u16>, b: Seq<u8>) -> bool {
    &&& b.len() == 2 * v.len()
    &&& forall|i: int|
        0 <= i < v.len() ==> #[trigger] b[2 * i] as int * 256 + b[2 * i + 1] as int == v[i] as int
}

/// Relies on byteorder's `LittleEndian::write_u32_into`: each word becomes four bytes,
/// least significant first; it panics unless the output holds four bytes per word.
#[verifier::external_body]
fn write_le_words(words: &Vec<u32>, out: &mut Vec<u8>)
    requires
        old(out)@.len() == 4 * words@.len(),
    ensures
        encodes_le(words@, final(out)@),
{
    LittleEndian::write_u32_into(words.as_slice(), out.as_mut_slice());
}

/// Relies on byteorder's `LittleEndian::read_u32_into`: each four bytes, least
/// significant first, become a word; it panics unless the input holds four bytes per word.
#[verifier::external_body]
fn read_le_words(bytes: &Vec<u8>, out: &mut Vec<u32>)
    requires
        bytes@.len() == 4 * old(out)@.len(),
    ensures
        encodes_le(final(out)@, bytes@),
{
    LittleEndian::read_u32_into(bytes.as_slice(), out.as_mut_slice());
}

/// Relies on byteorder's `BigEndian::write_u16_into`: each value becomes two bytes,
/// most significant first; it panics unless the output holds two bytes per value.
#[verifier::external_body]
fn write_be_u16s(values: &Vec<u16>, out: &mut Vec<u8>)
    requires
        old(out)@.len() == 2 * values@.len(),
    ensures
        encodes_be16(values@, final(out)@),
{
    BigEndian::write_u16_into(values.as_slice(), out.as_mut_slice());
}

/// `n` zero bytes.
fn zero_bytes(n: usize) -> (r: Vec<u8>)
    ensures
        r@.len() == n,
{
    let mut v: Vec<u8> = Vec::new();
    let mut i: usize = 0;
    while i < n
        invariant
            i <= n,
            v@.len() == i,
        decreases n - i,
    {
        v.push(0);
        i = i + 1;
    }
    v
}

/// `n` zero words.
fn zero_words(n: usize) -> (r: Vec<u32>)
    ensures
        r@.len() == n,
{
    let mut v: Vec<u32> = Vec::new();
    let mut i: usize = 0;
    while i < n
        invariant
            i <= n,
            v@.len() == i,
        decreases n - i,
    {
        v.push(0);
        i = i + 1;
    }
    v
}

/// The data file's bytes for the sample words.
pub fn data_bytes(words: &Vec<u32>) -> (r: Vec<u8>)
    requires
        4 * words@.len() <= usize::MAX,
    ensures
        encodes_le(words@, r@),
{
    let mut out = zero_bytes(4 * words.len());
    write_le_words(words, &mut out);
    out
}

/// The sample words of a data file; none when its length is not a multiple of four.
pub fn load(bytes: &Vec<u8>) -> (r: Option<Vec<u32>>)
    ensures
        match r {
            Some(w) => encodes_le(w@, bytes@),
            None => bytes@.len() % 4 != 0,
        },
{
    if bytes.len() % 4 != 0 {
        None
    } else {
        let mut out = zero_words(bytes.len() / 4);
        read_le_words(bytes, &mut out);
        Some(out)
    }
}

/// The bytes of 16-bit output samples, most significant byte first.
pub fn u16_bytes(values: &Vec<u16>) -> (r: Vec<u8>)
    requires
        2 * values@.len() <= usize::MAX,
    ensures
        encodes_be16(values@, r@),
{
    let mut out = zero_bytes(2 * values.len());
    write_be_u16s(values, &mut out);
    out
}

/// Loading what was written gives back the same words.
pub proof fn lemma_data_round_trip(w: Seq<u32>, b: Seq<u8>, r: Seq<u32>)
    requires
        encodes_le(w, b),
        encodes_le(r, b),
    ensures
        r == w,
{
    assert forall|i: int| 0 <= i < w.len() implies r[i] == w[i] by {
        assert(le_u32(b.subrange(4 * i, 4 * i + 4)) == w[i] as int);
    }
    assert(r =~= w);
}

/// The dimensions padded to five with `1`s.
pub open spec fn padded_dims(d: Seq<usize>) -> Seq<usize> {
    d + Seq::new((5 - d.len()) as nat, |i: int| 1usize)
}

/// The header text for the dimensions.
pub open spec fn header_text(d: Seq<usize>) -> Seq<char> {
    "# Dimensions\n"@ + spaced_decimals(padded_dims(d))
}

/// Renders the header of an array with these dimensions (at most five).
pub fn cfl_header(dims: &Vec<usize>) -> (r: String)
    requires
        dims@.len() <= 5,
    ensures
        r@ == header_text(dims@),
{
    let mut d: Vec<usize> = Vec::new();
    let mut i: usize = 0;
    while i < dims.len()
        invariant
            i <= dims@.len(),
            d@ == dims@.take(i as int),
        decreases dims.len() - i,
    {
        d.push(dims[i]);
        proof {
            assert(d@ =~= dims@.take(i + 1));
        }
        i = i + 1;
    }
    let mut k: usize = dims.len();
    while k < 5
        invariant
            dims@.len() <= k <= 5,
            d@ == dims@ + Seq::new((k - dims@.len()) as nat, |i: int| 1usize),
        decreases 5 - k,
    {
        d.push(1);
        k = k + 1;
        proof {
            assert(d@ =~= dims@ + Seq::new((k - dims@.len()) as nat, |i: int| 1usize));
        }
    }
    proof {
        assert(d@ =~= padded_dims(dims@));
    }
    let body = vec_to_string(&d);
    let mut s = String::from_str("# Dimensions\n");
    s.append(body.as_str());
    s
}

/// Whether `l` starts with `#`.
pub open spec fn is_key_line(l: Seq<char>) -> bool {
    l.len() > 0 && l[0] == '#'
}

/// The header's map from each line that starts with `#` to the line after it, over the
/// first `k` lines; none when such a line is the last.
pub open spec fn header_map(ls: Seq<Seq<char>>, k: int) -> Option<Map<Seq<char>, Seq<char>>>
    decreases k,
{
    if k <= 0 {
        Some(Map::empty())
    } else {
        match header_map(ls, k - 1) {
            None => None,
            Some(m) => if is_key_line(ls[k - 1]) {
                if k < ls.len() {
                    Some(m.insert(ls[k - 1], ls[k]))
                } else {
                    None
                }
            } else {
                Some(m)
            },
        }
    }
}

/// Why a header cannot be read.
#[derive(PartialEq, Eq, Debug, Clone, Copy, Structural)]
pub enum CflError {
    /// A `#` line has no line after it.
    MissingValue,
    /// The header has no `# Dimensions` line.
    NoDimensions,
}

/// Reads the header's `#` lines and the line after each.
pub fn load_cfl_header(text: &str) -> (r: Result<StrMap<String>, CflError>)
    ensures
        match r {
            Ok(m) => m.wf() && header_map(lines_of(text@), lines_of(text@).len() as int) == Some(m.view()),
            Err(_) => header_map(lines_of(text@), lines_of(text@).len() as int).is_none(),
        },
{
    let ls = lines(text);
    let ghost lv = ls.deep_view();
    let mut m: StrMap<String> = StrMap::new();
    let n = ls.len();
    let mut i: usize = 0;
    while i < n
        invariant
            n == lv.len(),
            lv == ls.deep_view(),
            lv == lines_of(text@),
            i <= n,
            m.wf(),
            header_map(lv, i as int) == Some(m.view()),
        decreases n - i,
    {
        proof {
            assert(lv[i as int] == ls@[i as int]@);
        }
        let l = ls[i].as_str();
        if l.unicode_len() > 0 && l.get_char(0) == '#' {
            if i + 1 < n {
                proof {
                    assert(lv[i + 1] == ls@[i + 1]@);
                }
                m.insert(ls[i].clone(), ls[i + 1].clone());
            } else {
                proof {
                    lemma_header_map_none(lv, i as int + 1);
                }
                return Err(CflError::MissingValue);
            }
        }
        i = i + 1;
    }
    Ok(m)
}

proof fn lemma_header_map_none(ls: Seq<Seq<char>>, k: int)
    requires
        0 <= k <= ls.len(),
        header_map(ls, k).is_none(),
    ensures
        header_map(ls, ls.len() as int).is_none(),
    decreases ls.len() - k,
{
    if k < ls.len() {
        lemma_header_map_none(ls, k + 1);
    }
}

/// The dimensions that the tokens name, in order; tokens that are not numbers are
/// passed over.
pub open spec fn dims_of_tokens(toks: Seq<Seq<char>>) -> Seq<usize>
    decreases toks.len(),
{
    if toks.len() == 0 {
        Seq::empty()
    } else {
        let prev = dims_of_tokens(toks.drop_last());
        match parse_unsigned(toks.last(), usize::MAX as nat) {
            Some(v) => prev.push(v as usize),
            None => prev,
        }
    }
}

/// The dimensions without their trailing ones.
pub open spec fn without_trailing_ones(d: Seq<usize>) -> Seq<usize>
    decreases d.len(),
{
    if d.len() > 0 && d.last() == 1 {
        without_trailing_ones(d.drop_last())
    } else {
        d
    }
}

/// The dimensions that a header gives, without their trailing ones.
pub open spec fn header_dims(text: Seq<char>) -> Option<Seq<usize>> {
    match header_map(lines_of(text), lines_of(text).len() as int) {
        Some(m) => if m.contains_key("# Dimensions"@) {
            Some(without_trailing_ones(dims_of_tokens(ws_tokens(m["# Dimensions"@]))))
        } else {
            None
        },
        None => None,
    }
}

/// Reads the dimensions out of a header, without their trailing ones.
pub fn get_dims(header: &str) -> (r: Result<Vec<usize>, CflError>)
    ensures
        match r {
            Ok(d) => header_dims(header@) == Some(d@),
            Err(_) => header_dims(header@).is_none(),
        },
{
    let m = match load_cfl_header(header) {
        Ok(m) => m,
        Err(e) => return Err(e),
    };
    let d = match m.get("# Dimensions") {
        Some(d) => d,
        None => return Err(CflError::NoDimensions),
    };
    let toks = split_whitespace(d.as_str());
    let mut out: Vec<usize> = Vec::new();
    let mut i: usize = 0;
    while i < toks.len()
        invariant
            i <= toks@.len(),
            toks.deep_view() == ws_tokens(d@),
            out@ == dims_of_tokens(toks.deep_view().take(i as int)),
        decreases toks.len() - i,
    {
        proof {
            assert(toks.deep_view().take(i + 1).drop_last() == toks.deep_view().take(i as int));
            assert(toks.deep_view()[i as int] == toks@[i as int]@);
        }
        match parse_usize(toks[i].as_str()) {
            Some(v) => {
                out.push(v);
            },
            None => {},
        }
        i = i + 1;
    }
    proof {
        assert(toks.deep_view().take(toks@.len() as int) == toks.deep_view());
    }
    let mut k: usize = out.len();
    proof {
        assert(out@.take(k as int) == out@);
    }
    while k > 0 && out[k - 1] == 1
        invariant
            k <= out@.len(),
            without_trailing_ones(out@) == without_trailing_ones(out@.take(k as int)),
        decreases k,
    {
        proof {
            assert(out@.take(k as int).drop_last() == out@.take(k - 1));
        }
        k = k - 1;
    }
    let mut r: Vec<usize> = Vec::new();
    let mut j: usize = 0;
    while j < k
        invariant
            k <= out@.len(),
            j <= k,
            r@ == out@.take(j as int),
        decreases k - j,
    {
        r.push(out[j]);
        j = j + 1;
        proof {
            assert(r@ =~= out@.take(j as int));
        }
    }
    proof {
        if k > 0 {
            assert(out@.take(k as int).last() == out@[k - 1]);
        }
        assert(without_trailing_ones(out@.take(k as int)) == out@.take(k as int));
    }
    Ok(r)
}

proof fn lemma_split_append(x: Seq<char>, d: Seq<char>, sep: Separator, keep: bool)
    requires
        forall|i: int| 0 <= i < d.len() ==> !crate::text::is_sep(sep, #[trigger] d[i]),
    ensures
        split_state(x + d, sep, keep) == (split_state(x, sep, keep).0, split_state(x, sep, keep).1 + d),
    decreases d.len(),
{
    if d.len() == 0 {
        assert(x + d == x);
        assert(split_state(x, sep, keep).1 + d == split_state(x, sep, keep).1);
    } else {
        lemma_split_append(x, d.drop_last(), sep, keep);
        assert((x + d).drop_last() == x + d.drop_last());
        assert((x + d).last() == d.last());
        assert(!crate::text::is_sep(sep, d[d.len() - 1]));
        assert(split_state(x, sep, keep).1 + d.drop_last() + seq![d.last()] == split_state(x, sep, keep).1 + d);
        assert((split_state(x, sep, keep).1 + d.drop_last()).push(d.last()) == split_state(x, sep, keep).1 + d);
    }
}

proof fn lemma_spaced_chars(v: Seq<usize>)
    ensures
        forall|i: int|
            0 <= i < spaced_decimals(v).len() ==> #[trigger] spaced_decimals(v)[i] == ' ' || crate::text::is_digit(
                spaced_decimals(v)[i],
            ),
    decreases v.len(),
{
    if v.len() == 1 {
        crate::text::lemma_decimal_digits(v[0] as nat);
    } else if v.len() > 1 {
        lemma_spaced_chars(v.drop_last());
        crate::text::lemma_decimal_digits(v.last() as nat);
        let a = spaced_decimals(v.drop_last()).push(' ');
        assert forall|i: int| 0 <= i < spaced_decimals(v).len() implies #[trigger] spaced_decimals(v)[i] == ' '
            || crate::text::is_digit(spaced_decimals(v)[i]) by {
            if i < a.len() - 1 {
                assert(spaced_decimals(v)[i] == spaced_decimals(v.drop_last())[i]);
            } else if i >= a.len() {
                assert(spaced_decimals(v)[i] == decimal(v.last() as nat)[i - a.len()]);
            }
        }
    }
}

proof fn lemma_spaced_tokens(v: Seq<usize>)
    requires
        v.len() > 0,
    ensures
        split_state(spaced_decimals(v), Separator::Space, false) == (
            v.drop_last().map_values(|x: usize| decimal(x as nat)),
            decimal(v.last() as nat),
        ),
    decreases v.len(),
{
    crate::text::lemma_decimal_digits(v.last() as nat);
    let dl = decimal(v.last() as nat);
    assert forall|i: int| 0 <= i < dl.len() implies !crate::text::is_sep(Separator::Space, #[trigger] dl[i]) by {
        assert(crate::text::is_digit(dl[i]));
    }
    if v.len() == 1 {
        lemma_split_append(Seq::empty(), dl, Separator::Space, false);
        assert(Seq::<char>::empty() + dl == dl);
        assert(v.drop_last().map_values(|x: usize| decimal(x as nat)) =~= Seq::<Seq<char>>::empty());
    } else {
        let w = v.drop_last();
        lemma_spaced_tokens(w);
        crate::text::lemma_decimal_digits(w.last() as nat);
        let x = spaced_decimals(w).push(' ');
        assert(x.drop_last() == spaced_decimals(w));
        assert(space_char(' '));
        lemma_split_append(x, dl, Separator::Space, false);
        assert(spaced_decimals(v) == x + dl);
        assert(w.map_values(|x: usize| decimal(x as nat)) =~= w.drop_last().map_values(|x: usize| decimal(x as nat)).push(decimal(w.last() as nat)));
        assert(Seq::<char>::empty() + dl == dl);
    }
}

proof fn lemma_tokens_dims(v: Seq<usize>)
    ensures
        dims_of_tokens(v.map_values(|x: usize| decimal(x as nat))) == v,
    decreases v.len(),
{
    if v.len() > 0 {
        lemma_tokens_dims(v.drop_last());
        let t = v.map_values(|x: usize| decimal(x as nat));
        assert(t.drop_last() =~= v.drop_last().map_values(|x: usize| decimal(x as nat)));
        crate::text::lemma_parse_decimal(v.last() as nat, usize::MAX as nat);
        assert(v.drop_last().push(v.last()) == v);
    }
}

proof fn lemma_trailing_ones(d: Seq<usize>, k: nat)
    ensures
        without_trailing_ones(d + Seq::new(k, |i: int| 1usize)) == without_trailing_ones(d),
    decreases k,
{
    if k == 0 {
        assert(d + Seq::new(k, |i: int| 1usize) == d);
    } else {
        lemma_trailing_ones(d, (k - 1) as nat);
        assert((d + Seq::new(k, |i: int| 1usize)).drop_last() == d + Seq::new((k - 1) as nat, |i: int| 1usize));
    }
}

proof fn lemma_spaced_first(v: Seq<usize>)
    requires
        v.len() > 0,
    ensures
        spaced_decimals(v).len() > 0,
        crate::text::is_digit(spaced_decimals(v)[0]),
    decreases v.len(),
{
    if v.len() == 1 {
        crate::text::lemma_decimal_digits(v[0] as nat);
    } else {
        lemma_spaced_first(v.drop_last());
        assert(spaced_decimals(v)[0] == spaced_decimals(v.drop_last())[0]);
    }
}

/// Reading the dimensions back from a written header gives the written ones without
/// their trailing ones.
pub proof fn lemma_header_round_trip(d: Seq<usize>)
    requires
        d.len() <= 5,
    ensures
        header_dims(header_text(d)) == Some(without_trailing_ones(d)),
{
    let v = padded_dims(d);
    let b = spaced_decimals(v);
    let a = "# Dimensions"@;
    reveal_strlit("# Dimensions");
    reveal_strlit("# Dimensions\n");
    assert("# Dimensions\n"@ == a.push('\n'));
    let text = header_text(d);
    assert(text == a.push('\n') + b);
    lemma_spaced_chars(v);
    lemma_spaced_tokens(v);
    assert(b.len() > 0);
    assert forall|i: int| 0 <= i < b.len() implies !crate::text::is_sep(Separator::Char('\n'), #[trigger] b[i]) by {
        assert(b[i] == ' ' || crate::text::is_digit(b[i]));
    }
    assert forall|i: int| 0 <= i < a.len() implies !crate::text::is_sep(Separator::Char('\n'), #[trigger] a[i]) by {
    }
    lemma_split_append(a.push('\n'), b, Separator::Char('\n'), true);
    lemma_split_append(Seq::empty(), a, Separator::Char('\n'), true);
    assert(Seq::<char>::empty() + a == a);
    assert(a.push('\n').drop_last() == a);
    let p = crate::text::pieces(text, '\n');
    assert(Seq::<char>::empty() + b == b);
    assert(p == seq![a, b]);
    let ls = lines_of(text);
    assert(ls.len() == 2);
    assert(ls[0] == a);
    assert(ls[1] == b);
    lemma_spaced_first(v);
    assert(crate::text::is_digit(b[0]));
    assert(a.len() > 0 && a[0] == '#');
    assert(is_key_line(ls[0]));
    assert(header_map(ls, 0) == Some(Map::<Seq<char>, Seq<char>>::empty()));
    assert(header_map(ls, 1) == Some(Map::<Seq<char>, Seq<char>>::empty().insert(a, b)));
    assert(header_map(ls, 2) == Some(Map::<Seq<char>, Seq<char>>::empty().insert(a, b)));
    assert(ws_tokens(b) == v.map_values(|x: usize| decimal(x as nat))) by {
        assert(v.map_values(|x: usize| decimal(x as nat)) =~= v.drop_last().map_values(|x: usize| decimal(x as nat)).push(decimal(v.last() as nat)));
    }
    lemma_tokens_dims(v);
    lemma_trailing_ones(d, (5 - d.len()) as nat);
}

} // verus!
