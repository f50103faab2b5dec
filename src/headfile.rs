//! The headfile: `key=value` metadata. An acquisition metadata file is parsed
//! (split at the first `=`, lines without one passed over) and translated to the
//! downstream schema by a fixed table of renames; values stay text throughout.
use vstd::prelude::*;
use crate::table::StrMap;
use crate::text::{decimal, decimal_string, lines, lines_of, parse_i32, parse_i32_spec, push_char};

verus! {

/// The position of the first `c` in `s`, or -1.
pub open spec fn first_index(s: Seq<char>, c: char) -> int
    decreases s.len(),
{
    if s.len() == 0 {
        -1
    } else {
        let k = first_index(s.drop_last(), c);
        if k >= 0 {
            k
        } else if s.last() == c {
            s.len() - 1
        } else {
            -1
        }
    }
}

/// The map that the first `k` lines give: for each line with a `=`, the text before
/// the first `=` to the text after it; a later line wins.
pub open spec fn parsed_fields(ls: Seq<Seq<char>>, k: int) -> Map<Seq<char>, Seq<char>>
    decreases k,
{
    if k <= 0 {
        Map::empty()
    } else {
        let m = parsed_fields(ls, k - 1);
        let l = ls[k - 1];
        let e = first_index(l, '=');
        if e >= 0 {
            m.insert(l.take(e), l.skip(e + 1))
        } else {
            m
        }
    }
}

pub open spec fn fields_of(text: Seq<char>) -> Map<Seq<char>, Seq<char>> {
    parsed_fields(lines_of(text), lines_of(text).len() as int)
}

/// `v` in decimal, with a `-` when negative.
pub open spec fn int_text(v: int) -> Seq<char> {
    if v < 0 {
        seq!['-'] + decimal((-v) as nat)
    } else {
        decimal(v as nat)
    }
}

/// The fields after the text renames: the echo count copied as an integer, the
/// sequence name copied as is, and the image format set to `raw`; none when the echo
/// count is there but is no integer.
pub open spec fn translated(m: Map<Seq<char>, Seq<char>>) -> Option<Map<Seq<char>, Seq<char>>> {
    let m1 = if m.contains_key("ppr_no_echoes"@) {
        match parse_i32_spec(m["ppr_no_echoes"@]) {
            Some(v) => Some(m.insert("ne"@, int_text(v))),
            None => None,
        }
    } else {
        Some(m)
    };
    match m1 {
        None => None,
        Some(m1) => {
            let m2 = if m1.contains_key("acq_Sequence"@) {
                m1.insert("S_PSDname"@, m1["acq_Sequence"@])
            } else {
                m1
            };
            Some(m2.insert("F_imgformat"@, "raw"@))
        },
    }
}

/// The `key=value` lines of entries, in order.
pub open spec fn rendered(s: Seq<(Seq<char>, Seq<char>)>) -> Seq<char>
    decreases s.len(),
{
    if s.len() == 0 {
        Seq::empty()
    } else {
        rendered(s.drop_last()) + s.last().0 + seq!['='] + s.last().1 + seq!['\n']
    }
}

/// Why metadata cannot be translated.
#[derive(PartialEq, Eq, Debug, Clone, Copy, Structural)]
pub enum HeadfileError {
    /// The echo count is no integer.
    BadInteger,
}

/// A numeric field scaled on the way: `target = source * num / den`, as a float.
pub struct ScaleRule {
    pub source: String,
    pub target: String,
    pub num: u32,
    pub den: u32,
}

/// Metadata fields, each key once.
pub struct Headfile {
    pub items: StrMap<String>,
}

fn rule(source: &str, target: &str, num: u32, den: u32) -> (r: ScaleRule)
    ensures
        r.source@ == source@,
        r.target@ == target@,
        r.num == num,
        r.den == den,
{
    ScaleRule { source: String::from_str(source), target: String::from_str(target), num, den }
}

/// The `k`-th entry of the table of scaled fields.
pub open spec fn scale_rule(k: int) -> (Seq<char>, Seq<char>, u32, u32) {
    if k == 0 {
        ("fov_read"@, "fovx"@, 1000, 1)
    } else if k == 1 {
        ("fov_phase"@, "fovy"@, 1000, 1)
    } else if k == 2 {
        ("fov_slice"@, "fovz"@, 1000, 1)
    } else if k == 3 {
        ("echo_time"@, "te"@, 1000, 1)
    } else if k == 4 {
        ("rep_time"@, "tr"@, 1000000, 1)
    } else if k == 5 {
        ("flip"@, "alpha"@, 1, 1)
    } else {
        ("bandwidth"@, "bw"@, 1, 2)
    }
}

pub fn first_equals(l: &str) -> (r: Option<usize>)
    ensures
        match r {
            Some(i) => i as int == first_index(l@, '='),
            None => first_index(l@, '=') == -1,
        },
        first_index(l@, '=') < l@.len(),
        first_index(l@, '=') >= 0 ==> l@[first_index(l@, '=')] == '=',
{
    let n = l.unicode_len();
    let mut i: usize = 0;
    while i < n
        invariant
            n == l@.len(),
            i <= n,
            first_index(l@.take(i as int), '=') == -1,
        decreases n - i,
    {
        proof {
            assert(l@.take(i + 1).drop_last() == l@.take(i as int));
        }
        if l.get_char(i) == '=' {
            proof {
                lemma_first_index_prefix(l@, i as int + 1);
            }
            return Some(i);
        }
        i = i + 1;
    }
    proof {
        assert(l@.take(n as int) == l@);
    }
    None
}

proof fn lemma_first_index_prefix(s: Seq<char>, k: int)
    requires
        0 <= k <= s.len(),
        first_index(s.take(k), '=') >= 0,
    ensures
        first_index(s, '=') == first_index(s.take(k), '='),
        s[first_index(s, '=')] == '=',
        first_index(s, '=') < s.len(),
    decreases s.len() - k,
{
    if k < s.len() {
        assert(s.take(k + 1).drop_last() == s.take(k));
        lemma_first_index_prefix(s, k + 1);
    } else {
        assert(s.take(k) == s);
        lemma_first_index_found(s);
    }
}

proof fn lemma_first_index_found(s: Seq<char>)
    requires
        first_index(s, '=') >= 0,
    ensures
        first_index(s, '=') < s.len(),
        s[first_index(s, '=')] == '=',
    decreases s.len(),
{
    if first_index(s.drop_last(), '=') >= 0 {
        lemma_first_index_found(s.drop_last());
    }
}

fn int_string(v: i32) -> (r: String)
    ensures
        r@ == int_text(v as int),
{
    if v < 0 {
        let mut s = String::new();
        push_char(&mut s, '-');
        let d = decimal_string((0 - (v as i64)) as u64);
        s.append(d.as_str());
        s
    } else {
        decimal_string(v as u64)
    }
}

impl Headfile {
    /// A headfile with no field.
    pub fn new() -> (r: Headfile)
        ensures
            r.items.wf(),
            r.items.view() == Map::<Seq<char>, Seq<char>>::empty(),
    {
        Headfile { items: StrMap::new() }
    }

    /// The table of numeric fields that are scaled on the way, in order.
    pub fn float_rules() -> (r: Vec<ScaleRule>)
        ensures
            r@.len() == 7,
            forall|k: int|
                0 <= k < 7 ==> (#[trigger] r@[k]).source@ == scale_rule(k).0 && r@[k].target@ == scale_rule(k).1
                    && r@[k].num == scale_rule(k).2 && r@[k].den == scale_rule(k).3,
    {
        let mut v: Vec<ScaleRule> = Vec::new();
        v.push(rule("fov_read", "fovx", 1000, 1));
        v.push(rule("fov_phase", "fovy", 1000, 1));
        v.push(rule("fov_slice", "fovz", 1000, 1));
        v.push(rule("echo_time", "te", 1000, 1));
        v.push(rule("rep_time", "tr", 1000000, 1));
        v.push(rule("flip", "alpha", 1, 1));
        v.push(rule("bandwidth", "bw", 1, 2));
        v
    }

    /// Parses `key=value` lines, split at the first `=`; lines without one are passed over.
    pub fn parse(text: &str) -> (r: Headfile)
        ensures
            r.items.wf(),
            r.items.view() == fields_of(text@),
    {
        let ls = lines(text);
        let ghost lv = ls.deep_view();
        let mut hf = Headfile::new();
        let mut i: usize = 0;
        while i < ls.len()
            invariant
                lv == ls.deep_view(),
                lv == lines_of(text@),
                i <= lv.len(),
                hf.items.wf(),
                hf.items.view() == parsed_fields(lv, i as int),
            decreases ls.len() - i,
        {
            proof {
                assert(lv[i as int] == ls@[i as int]@);
            }
            let l = ls[i].as_str();
            let n = l.unicode_len();
            match first_equals(l) {
                Some(e) => {
                    let key = String::from_str(l.substring_char(0, e));
                    let val = String::from_str(l.substring_char(e + 1, n));
                    hf.items.insert(key, val);
                },
                None => {},
            }
            i = i + 1;
        }
        hf
    }

    /// Sets a field, replacing an earlier value.
    pub fn append_field(&mut self, key: &str, value: &str)
        requires
            old(self).items.wf(),
        ensures
            final(self).items.wf(),
            final(self).items.view() == old(self).items.view().insert(key@, value@),
    {
        self.items.insert(String::from_str(key), String::from_str(value));
    }

    /// Applies the text renames of the translation table and sets the image format.
    pub fn translate_field_names(&mut self) -> (r: Result<(), HeadfileError>)
        requires
            old(self).items.wf(),
        ensures
            final(self).items.wf(),
            match r {
                Ok(()) => translated(old(self).items.view()) == Some(final(self).items.view()),
                Err(_) => translated(old(self).items.view()).is_none(),
            },
    {
        let ne = match self.items.get("ppr_no_echoes") {
            Some(s) => match parse_i32(s.as_str()) {
                Some(v) => Some(int_string(v)),
                None => return Err(HeadfileError::BadInteger),
            },
            None => None,
        };
        match ne {
            Some(t) => self.append_field("ne", t.as_str()),
            None => {},
        }
        let seq_name = match self.items.get("acq_Sequence") {
            Some(s) => Some(String::from_str(s.as_str())),
            None => None,
        };
        match seq_name {
            Some(t) => self.append_field("S_PSDname", t.as_str()),
            None => {},
        }
        self.append_field("F_imgformat", "raw");
        Ok(())
    }

    /// Parses metadata text and applies the text renames of the translation table.
    pub fn txt_to_hash(text: &str) -> (r: Result<Headfile, HeadfileError>)
        ensures
            match r {
                Ok(h) => h.items.wf() && translated(fields_of(text@)) == Some(h.items.view()),
                Err(_) => translated(fields_of(text@)).is_none(),
            },
    {
        let mut h = Headfile::parse(text);
        match h.translate_field_names() {
            Ok(()) => Ok(h),
            Err(e) => Err(e),
        }
    }

    /// The headfile's text: one `key=value` line per field.
    pub fn render(&self) -> (r: String)
        ensures
            r@ == rendered(self.items.entries_view()),
    {
        let mut s = String::new();
        let mut i: usize = 0;
        while i < self.items.entries.len()
            invariant
                i <= self.items.entries@.len(),
                s@ == rendered(self.items.entries_view().take(i as int)),
            decreases self.items.entries.len() - i,
        {
            proof {
                assert(self.items.entries_view().take(i + 1).drop_last() == self.items.entries_view().take(i as int));
            }
            s.append(self.items.entries[i].0.as_str());
            push_char(&mut s, '=');
            s.append(self.items.entries[i].1.as_str());
            push_char(&mut s, '\n');
            i = i + 1;
        }
        proof {
            assert(self.items.entries_view().take(self.items.entries@.len() as int) == self.items.entries_view());
        }
        s
    }
}

} // verus!
