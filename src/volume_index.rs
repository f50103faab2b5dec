//! The scanner's volume index: one line per raw file, `name` alone while the file is
//! not ready, `name index` once it is.
use vstd::prelude::*;
use crate::resource::{transfer_view, transfer_words, Host, RState, Resource, Transfer};
use crate::text::{lines, lines_of, split_whitespace, ws_tokens};
use crate::volume_manager::opt_view;

verus! {

pub struct VolumeIndex {}

/// One line of the index.
#[derive(Debug)]
pub struct IndexEntry {
    pub name: String,
    /// The volume's index, once its raw file is ready.
    pub index: Option<String>,
}

/// Why the index cannot be read.
#[derive(PartialEq, Eq, Debug, Clone, Copy, Structural)]
pub enum IndexError {
    /// A line holds neither one nor two words.
    Corrupt,
}

/// The entries of the index lines `ls`, or none when a line holds neither one nor two words.
pub open spec fn all_entries(ls: Seq<Seq<char>>) -> Option<Seq<(Seq<char>, Option<Seq<char>>)>>
    decreases ls.len(),
{
    if ls.len() == 0 {
        Some(Seq::empty())
    } else {
        match all_entries(ls.drop_last()) {
            None => None,
            Some(prev) => {
                let t = ws_tokens(ls.last());
                if t.len() == 1 {
                    Some(prev.push((t[0], None)))
                } else if t.len() == 2 {
                    Some(prev.push((t[0], Some(t[1]))))
                } else {
                    None
                }
            },
        }
    }
}

/// The `(name, index)` pairs of the lines of `ls` that hold two words.
pub open spec fn ready_entries(ls: Seq<Seq<char>>) -> Seq<(Seq<char>, Seq<char>)>
    decreases ls.len(),
{
    if ls.len() == 0 {
        Seq::empty()
    } else {
        let prev = ready_entries(ls.drop_last());
        let t = ws_tokens(ls.last());
        if t.len() == 2 {
            prev.push((t[0], t[1]))
        } else {
            prev
        }
    }
}

pub open spec fn entry_view(e: IndexEntry) -> (Seq<char>, Option<Seq<char>>) {
    (e.name@, opt_view(e.index))
}

impl VolumeIndex {
    /// The ready volumes of the index text, as `(name, index)` in file order.
    pub fn read_ready(text: &str) -> (r: Vec<(String, String)>)
        ensures
            r@.map_values(|e: (String, String)| (e.0@, e.1@)) == ready_entries(lines_of(text@)),
    {
        let ls = lines(text);
        let mut out: Vec<(String, String)> = Vec::new();
        let mut i: usize = 0;
        while i < ls.len()
            invariant
                i <= ls@.len(),
                ls.deep_view() == lines_of(text@),
                out@.map_values(|e: (String, String)| (e.0@, e.1@)) == ready_entries(ls.deep_view().take(i as int)),
            decreases ls.len() - i,
        {
            proof {
                assert(ls.deep_view().take(i + 1).drop_last() == ls.deep_view().take(i as int));
                assert(ls.deep_view()[i as int] == ls@[i as int]@);
            }
            let t = split_whitespace(ls[i].as_str());
            let ghost before = out@;
            if t.len() == 2 {
                proof {
                    assert(t.deep_view()[0] == t@[0]@ && t.deep_view()[1] == t@[1]@);
                }
                out.push((t[0].clone(), t[1].clone()));
                proof {
                    assert(out@.map_values(|e: (String, String)| (e.0@, e.1@)) =~= before.map_values(
                        |e: (String, String)| (e.0@, e.1@),
                    ).push((t@[0]@, t@[1]@)));
                }
            }
            i = i + 1;
        }
        proof {
            assert(ls.deep_view().take(ls@.len() as int) == ls.deep_view());
        }
        out
    }

    /// Every volume of the index text in file order, each with its index once ready;
    /// an error when a line holds neither one nor two words.
    pub fn read_all(text: &str) -> (r: Result<Vec<IndexEntry>, IndexError>)
        ensures
            match r {
                Ok(v) => all_entries(lines_of(text@)) == Some(v@.map_values(|e: IndexEntry| entry_view(e))),
                Err(_) => all_entries(lines_of(text@)).is_none(),
            },
    {
        let ls = lines(text);
        let mut out: Vec<IndexEntry> = Vec::new();
        let mut i: usize = 0;
        while i < ls.len()
            invariant
                i <= ls@.len(),
                ls.deep_view() == lines_of(text@),
                all_entries(ls.deep_view().take(i as int)) == Some(out@.map_values(|e: IndexEntry| entry_view(e))),
            decreases ls.len() - i,
        {
            proof {
                assert(ls.deep_view().take(i + 1).drop_last() == ls.deep_view().take(i as int));
                assert(ls.deep_view()[i as int] == ls@[i as int]@);
            }
            let t = split_whitespace(ls[i].as_str());
            let ghost before = out@;
            if t.len() == 1 {
                proof {
                    assert(t.deep_view()[0] == t@[0]@);
                }
                out.push(IndexEntry { name: t[0].clone(), index: None });
            } else if t.len() == 2 {
                proof {
                    assert(t.deep_view()[0] == t@[0]@ && t.deep_view()[1] == t@[1]@);
                }
                out.push(IndexEntry { name: t[0].clone(), index: Some(t[1].clone()) });
            } else {
                proof {
                    assert(ls.deep_view().take(i + 1).last() == ls.deep_view()[i as int]);
                    lemma_all_entries_none(ls.deep_view(), i as int + 1);
                    assert(ls.deep_view().take(ls@.len() as int) == ls.deep_view());
                }
                return Err(IndexError::Corrupt);
            }
            proof {
                assert(out@.map_values(|e: IndexEntry| entry_view(e)) =~= before.map_values(
                    |e: IndexEntry| entry_view(e),
                ).push(entry_view(out@.last())));
            }
            i = i + 1;
        }
        proof {
            assert(ls.deep_view().take(ls@.len() as int) == ls.deep_view());
        }
        Ok(out)
    }

    /// The index at `remote_path` on `remote_host` as a resource in the directory
    /// `destination`, and the remote copy that fetches it.
    pub fn fetch_from(remote_path: &str, remote_host: &Host, destination: &str) -> (r: (Resource, Transfer))
        ensures
            r.0.src@ == remote_path@,
            r.0.dest@ == destination@,
            r.0.state == RState::Remote,
            transfer_words(r.0, Some(*remote_host), false) == Some(transfer_view(r.1)),
            r.1.dest_dir@ == destination@,
    {
        let mut r = Resource::new(remote_path, destination);
        r.state = RState::Remote;
        let t = match r.update(&Some(remote_host.clone()), false) {
            Some(t) => t,
            None => {
                proof {
                    assert(false);
                }
                Transfer { program: String::new(), args: Vec::new(), dest_dir: String::new() }
            },
        };
        (r, t)
    }
}

/// Once a prefix of the lines is corrupt, so is every longer prefix.
proof fn lemma_all_entries_none(ls: Seq<Seq<char>>, k: int)
    requires
        0 <= k <= ls.len(),
        all_entries(ls.take(k)).is_none(),
    ensures
        all_entries(ls).is_none(),
    decreases ls.len() - k,
{
    if k < ls.len() {
        assert(ls.take(k + 1).drop_last() == ls.take(k));
        lemma_all_entries_none(ls, k + 1);
    } else {
        assert(ls.take(k) == ls);
    }
}

} // verus!
