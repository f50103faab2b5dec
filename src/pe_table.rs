//! The phase-encode table: its file name carries the grid size and the compression
//! factor (`_CS<size>_<compression>x_`), and its text is a CRLF-separated stream of
//! signed integers, read in `(ky, kz)` pairs.
use vstd::prelude::*;
use crate::text::{parse_i32, parse_i32_spec, parse_u32, parse_unsigned, parse_usize, push_char};

verus! {

/// The first match of `pattern` in `text`, with the text of its first two groups;
/// none when the pattern does not compile or does not match.
pub uninterp spec fn regex_first_pair(pattern: Seq<char>, text: Seq<char>) -> Option<(Seq<char>, Seq<char>)>;

pub open spec fn pair_view(r: Option<(String, String)>) -> Option<(Seq<char>, Seq<char>)> {
    match r {
        Some(p) => Some((p.0@, p.1@)),
        None => None,
    }
}

/// Relies on regex's `Regex::new` and `Regex::captures`: the first match of `pattern`
/// in `text`, with the text of its first two groups (empty for a group that did not
/// take part); none when the pattern does not compile or nothing matches.
#[verifier::external_body]
fn first_match_groups(pattern: &str, text: &str) -> (r: Option<(String, String)>)
    ensures
        pair_view(r) == regex_first_pair(pattern@, text@),
{
    match regex::Regex::new(pattern) {
        Err(_) => None,
        Ok(re) => re.captures(text).map(
            |c| (c.get(1).map_or("", |m| m.as_str()).to_string(), c.get(2).map_or("", |m| m.as_str()).to_string()),
        ),
    }
}

/// The pattern of a table's file name: size, then compression.
pub open spec fn table_name_pattern() -> Seq<char> {
    "_[Cc][Ss]([0-9]{1,})_([0-9]{1,})x_"@
}

/// Why a phase-encode table cannot be used.
#[derive(PartialEq, Eq, Debug, Clone, Copy, Structural)]
pub enum PeTableError {
    /// The file name does not carry `_CS<size>_<compression>x_`.
    NameMismatch,
    /// The size is no `usize`.
    BadSize,
    /// The compression is no `u32`.
    BadCompression,
    /// A coordinate plus half the size falls outside the index range.
    OutOfRange,
}

/// The size and compression that a table's file name gives.
pub open spec fn params_of(name: Seq<char>) -> Result<(usize, u32), PeTableError> {
    match regex_first_pair(table_name_pattern(), name) {
        None => Err(PeTableError::NameMismatch),
        Some(p) => params_of_groups(p.0, p.1),
    }
}

/// The size and compression that the name's two captured groups spell.
pub open spec fn params_of_groups(size: Seq<char>, compression: Seq<char>) -> Result<(usize, u32), PeTableError> {
    match parse_unsigned(size, usize::MAX as nat) {
        None => Err(PeTableError::BadSize),
        Some(s) => match parse_unsigned(compression, u32::MAX as nat) {
            None => Err(PeTableError::BadCompression),
            Some(c) => Ok((s as usize, c as u32)),
        },
    }
}

/// Reading state after `s`: the finished pieces, and the piece being read, cut at each `\r\n`.
pub open spec fn crlf_state(s: Seq<char>) -> (Seq<Seq<char>>, Seq<char>)
    decreases s.len(),
{
    if s.len() == 0 {
        (Seq::empty(), Seq::empty())
    } else {
        let prev = crlf_state(s.drop_last());
        let c = s.last();
        if c == '\n' && prev.1.len() > 0 && prev.1.last() == '\r' {
            (prev.0.push(prev.1.drop_last()), Seq::empty())
        } else {
            (prev.0, prev.1.push(c))
        }
    }
}

/// The pieces of `s` between occurrences of `\r\n`, as `str::split("\r\n")` gives them.
pub open spec fn crlf_pieces(s: Seq<char>) -> Seq<Seq<char>> {
    crlf_state(s).0.push(crlf_state(s).1)
}

/// The values of the pieces that parse as `i32`, in order.
pub open spec fn parsed_values(p: Seq<Seq<char>>) -> Seq<i32>
    decreases p.len(),
{
    if p.len() == 0 {
        Seq::empty()
    } else {
        match parse_i32_spec(p.last()) {
            Some(v) => parsed_values(p.drop_last()).push(v as i32),
            None => parsed_values(p.drop_last()),
        }
    }
}

/// Splits `s` at every `\r\n`.
pub fn split_crlf(s: &str) -> (r: Vec<String>)
    ensures
        r.deep_view() == crlf_pieces(s@),
{
    let n = s.unicode_len();
    let mut done: Vec<String> = Vec::new();
    let mut cur = String::new();
    let mut i: usize = 0;
    while i < n
        invariant
            n == s@.len(),
            i <= n,
            crlf_state(s@.take(i as int)) == (done.deep_view(), cur@),
        decreases n - i,
    {
        let c = s.get_char(i);
        proof {
            assert(s@.take(i + 1).drop_last() == s@.take(i as int));
        }
        let m = cur.as_str().unicode_len();
        if c == '\n' && m > 0 && cur.as_str().get_char(m - 1) == '\r' {
            let piece = String::from_str(cur.as_str().substring_char(0, m - 1));
            done.push(piece);
            cur = String::new();
            proof {
                assert(done.deep_view() == crlf_state(s@.take(i as int)).0.push(piece@));
            }
        } else {
            push_char(&mut cur, c);
        }
        i = i + 1;
    }
    proof {
        assert(s@.take(n as int) == s@);
    }
    done.push(cur);
    done
}

/// A phase-encode table: the grid size, the compression, and the table's values.
pub struct Petable {
    pub size: usize,
    pub compression: u32,
    pub values: Vec<i32>,
}

impl Petable {
    /// The size and compression that a table's file name gives.
    pub fn table_params(table_name: &str) -> (r: Result<(usize, u32), PeTableError>)
        ensures
            r == params_of(table_name@),
    {
        proof {
            reveal_strlit("_[Cc][Ss]([0-9]{1,})_([0-9]{1,})x_");
        }
        match first_match_groups("_[Cc][Ss]([0-9]{1,})_([0-9]{1,})x_", table_name) {
            None => Err(PeTableError::NameMismatch),
            Some((a, b)) => Petable::params_from_groups(a.as_str(), b.as_str()),
        }
    }

    /// The size and compression from the texts of the name's two captured groups.
    pub fn params_from_groups(size: &str, compression: &str) -> (r: Result<(usize, u32), PeTableError>)
        ensures
            r == params_of_groups(size@, compression@),
    {
        match parse_usize(size) {
            None => Err(PeTableError::BadSize),
            Some(s) => match parse_u32(compression) {
                None => Err(PeTableError::BadCompression),
                Some(c) => Ok((s, c)),
            },
        }
    }

    /// The values of a table's text: each piece between `\r\n`s that parses as an
    /// `i32`; the others are passed over.
    pub fn read_values(text: &str) -> (r: Vec<i32>)
        ensures
            r@ == parsed_values(crlf_pieces(text@)),
    {
        let p = split_crlf(text);
        let mut out: Vec<i32> = Vec::new();
        let mut i: usize = 0;
        while i < p.len()
            invariant
                i <= p@.len(),
                p.deep_view() == crlf_pieces(text@),
                out@ == parsed_values(p.deep_view().take(i as int)),
            decreases p.len() - i,
        {
            proof {
                assert(p.deep_view().take(i + 1).drop_last() == p.deep_view().take(i as int));
                assert(p.deep_view()[i as int] == p@[i as int]@);
            }
            match parse_i32(p[i].as_str()) {
                Some(v) => out.push(v),
                None => {},
            }
            i = i + 1;
        }
        proof {
            assert(p.deep_view().take(p@.len() as int) == p.deep_view());
        }
        out
    }

    /// The table named `table_name` whose text is `text`.
    pub fn new(table_name: &str, text: &str) -> (r: Result<Petable, PeTableError>)
        ensures
            match r {
                Ok(t) => params_of(table_name@) == Ok::<(usize, u32), PeTableError>((t.size, t.compression))
                    && t.values@ == parsed_values(crlf_pieces(text@)),
                Err(e) => params_of(table_name@) == Err::<(usize, u32), PeTableError>(e),
            },
    {
        match Petable::table_params(table_name) {
            Err(e) => Err(e),
            Ok((size, compression)) => Ok(Petable { size, compression, values: Petable::read_values(text) }),
        }
    }

    /// The `(ky, kz)` pairs of the table in order; an odd last value is left out.
    pub fn coordinates(&self) -> (r: Vec<(i32, i32)>)
        ensures
            r@.len() == self.values@.len() / 2,
            forall|i: int|
                0 <= i < r@.len() ==> #[trigger] r@[i] == (self.values@[2 * i], self.values@[2 * i + 1]),
    {
        let m = self.values.len();
        let n = m / 2;
        let mut out: Vec<(i32, i32)> = Vec::new();
        let mut i: usize = 0;
        while i < n
            invariant
                m == self.values@.len(),
                n == self.values@.len() / 2,
                i <= n,
                out@.len() == i,
                forall|j: int| 0 <= j < i ==> #[trigger] out@[j] == (self.values@[2 * j], self.values@[2 * j + 1]),
            decreases n - i,
        {
            out.push((self.values[2 * i], self.values[2 * i + 1]));
            i = i + 1;
        }
        out
    }

    /// The pairs shifted by half the size, so that they index the grid; an error when
    /// one falls outside the index range.
    pub fn indices(&self) -> (r: Result<Vec<(usize, usize)>, PeTableError>)
        ensures
            match r {
                Ok(v) => {
                    &&& v@.len() == self.values@.len() / 2
                    &&& forall|i: int|
                        0 <= i < v@.len() ==> {
                            &&& (#[trigger] v@[i]).0 as int == self.values@[2 * i] + self.size / 2
                            &&& v@[i].1 as int == self.values@[2 * i + 1] + self.size / 2
                        }
                },
                Err(_) => exists|i: int|
                    0 <= i < self.values@.len() / 2 * 2 && !(0 <= #[trigger] self.values@[i] + self.size / 2
                        <= usize::MAX),
            },
    {
        let c = self.coordinates();
        let half: i128 = (self.size / 2) as i128;
        let mut out: Vec<(usize, usize)> = Vec::new();
        let mut i: usize = 0;
        while i < c.len()
            invariant
                c@.len() == self.values@.len() / 2,
                forall|j: int| 0 <= j < c@.len() ==> #[trigger] c@[j] == (self.values@[2 * j], self.values@[2 * j + 1]),
                half == self.size / 2,
                i <= c@.len(),
                out@.len() == i,
                forall|j: int|
                    0 <= j < i ==> {
                        &&& (#[trigger] out@[j]).0 as int == self.values@[2 * j] + self.size / 2
                        &&& out@[j].1 as int == self.values@[2 * j + 1] + self.size / 2
                    },
            decreases c.len() - i,
        {
            let (a, b) = c[i];
            let x: i128 = a as i128 + half;
            let y: i128 = b as i128 + half;
            if x < 0 || x > usize::MAX as i128 {
                proof {
                    assert(c@[i as int] == (self.values@[2 * i], self.values@[2 * i + 1]));
                    assert(!(0 <= self.values@[2 * i] + self.size / 2 <= usize::MAX));
                }
                return Err(PeTableError::OutOfRange);
            }
            if y < 0 || y > usize::MAX as i128 {
                proof {
                    assert(c@[i as int] == (self.values@[2 * i], self.values@[2 * i + 1]));
                    assert(!(0 <= self.values@[2 * i + 1] + self.size / 2 <= usize::MAX));
                }
                return Err(PeTableError::OutOfRange);
            }
            out.push((x as usize, y as usize));
            proof {
                assert(c@[i as int] == (self.values@[2 * i], self.values@[2 * i + 1]));
            }
            i = i + 1;
        }
        Ok(out)
    }
}

} // verus!
