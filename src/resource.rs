//! Files to copy from the scanner host or the local disk into a working
//! directory, as a de-duplicated work queue. The list owns the remote host and
//! passes it down when it describes a copy; the queue says which copies to run,
//! the caller runs them and reports each exit status.
use vstd::prelude::*;
use crate::paths::{concat, file_name, file_name_of, join, join_path, parent, parent_of};

verus! {

/// A remote host and the user to log in as.
#[derive(Debug)]
pub struct Host {
    pub name: String,
    pub user: String,
}

impl Clone for Host {
    fn clone(&self) -> (r: Host)
        ensures
            r == *self,
    {
        Host { name: self.name.clone(), user: self.user.clone() }
    }
}

/// Where a resource stands: queued while the list had a remote host, queued while it
/// had none, or copied.
#[derive(PartialEq, Eq, Debug, Clone, Copy, Structural)]
pub enum RState {
    Remote,
    Local,
    Succeeded,
}

/// One file to copy from `src` into the directory `dest`.
#[derive(Debug)]
pub struct Resource {
    pub src: String,
    pub dest: String,
    pub state: RState,
}

/// The resources of one working directory, in insertion order, and the host that
/// remote copies come from.
#[derive(Debug)]
pub struct ResourceList {
    pub workdir: String,
    pub item: Vec<Resource>,
    pub host: Option<Host>,
}

/// One copy to run: a program and its arguments, into a directory that is to be
/// created first if absent.
#[derive(Debug)]
pub struct Transfer {
    pub program: String,
    pub args: Vec<String>,
    pub dest_dir: String,
}

/// What makes two resources of one list the same: source and destination, not the
/// state. The host is the list's, the same for all.
pub open spec fn identity(r: Resource) -> (Seq<char>, Seq<char>) {
    (r.src@, r.dest@)
}

/// The state that a resource is queued with under the host `h`: a copied resource
/// stays copied.
pub open spec fn queued_state(s: RState, h: Option<Host>) -> RState {
    if s == RState::Succeeded {
        s
    } else if h.is_some() {
        RState::Remote
    } else {
        RState::Local
    }
}

/// The program and arguments of a copy of `r`, locally or from the host `host`.
pub open spec fn transfer_words(r: Resource, host: Option<Host>, local: bool) -> Option<(Seq<char>, Seq<Seq<char>>)> {
    if local {
        Some(("cp"@, seq!["-p"@, r.src@, r.dest@]))
    } else {
        match host {
            Some(h) => Some(("scp"@, seq!["-Bp"@, h.user@ + "@"@ + h.name@ + ":"@ + r.src@, r.dest@])),
            None => None,
        }
    }
}

pub open spec fn transfer_view(t: Transfer) -> (Seq<char>, Seq<Seq<char>>) {
    (t.program@, t.args.deep_view())
}

/// Whether a fetch of `r` runs a copy: until it is copied.
pub open spec fn fetches(r: Resource) -> bool {
    r.state != RState::Succeeded
}

impl Host {
    pub fn new(user: &str, name: &str) -> (r: Host)
        ensures
            r.user@ == user@,
            r.name@ == name@,
    {
        Host { user: String::from_str(user), name: String::from_str(name) }
    }
}

impl Resource {
    /// A resource to copy from `source` into the directory `destination`.
    pub fn new(source: &str, destination: &str) -> (r: Resource)
        ensures
            r.src@ == source@,
            r.dest@ == destination@,
            r.state == RState::Local,
    {
        Resource { src: String::from_str(source), dest: String::from_str(destination), state: RState::Local }
    }

    /// Whether two resources are the same, their states aside.
    pub fn same(&self, other: &Resource) -> (r: bool)
        ensures
            r == (identity(*self) == identity(*other)),
    {
        crate::text::str_eq(self.src.as_str(), other.src.as_str()) && crate::text::str_eq(
            self.dest.as_str(),
            other.dest.as_str(),
        )
    }

    /// Where the copy lands: the source's file name in the destination directory.
    pub fn local_path(&self) -> (r: String)
        ensures
            r@ == join(self.dest@, file_name(self.src@)),
    {
        let name = file_name_of(self.src.as_str());
        join_path(self.dest.as_str(), name.as_str())
    }

    /// The destination directory.
    pub fn local_dir(&self) -> (r: String)
        ensures
            r@ == self.dest@,
    {
        self.dest.clone()
    }

    /// The copy of this resource, locally or from `host`; none for a remote copy
    /// without a host.
    pub fn update(&self, host: &Option<Host>, local: bool) -> (r: Option<Transfer>)
        ensures
            match r {
                Some(t) => transfer_words(*self, *host, local) == Some(transfer_view(t)) && t.dest_dir@
                    == self.dest@,
                None => transfer_words(*self, *host, local).is_none(),
            },
    {
        let mut args: Vec<String> = Vec::new();
        if local {
            args.push(String::from_str("-p"));
            args.push(self.src.clone());
            args.push(self.dest.clone());
            proof {
                assert(args.deep_view() =~= seq!["-p"@, self.src@, self.dest@]);
            }
            Some(Transfer { program: String::from_str("cp"), args, dest_dir: self.dest.clone() })
        } else {
            match host {
                None => None,
                Some(h) => {
                    let a = concat(h.user.as_str(), "@");
                    let b = concat(a.as_str(), h.name.as_str());
                    let c = concat(b.as_str(), ":");
                    let from = concat(c.as_str(), self.src.as_str());
                    args.push(String::from_str("-Bp"));
                    args.push(from);
                    args.push(self.dest.clone());
                    proof {
                        assert(args.deep_view() =~= seq!["-Bp"@, h.user@ + "@"@ + h.name@ + ":"@ + self.src@, self.dest@]);
                    }
                    Some(Transfer { program: String::from_str("scp"), args, dest_dir: self.dest.clone() })
                },
            }
        }
    }

    /// The copy that a fetch runs with the list's host `host`: from that host when there
    /// is one, locally otherwise; none once the resource is copied.
    pub fn fetch(&self, host: &Option<Host>) -> (r: Option<Transfer>)
        ensures
            r.is_some() == fetches(*self),
            match r {
                Some(t) => transfer_words(*self, *host, host.is_none()) == Some(transfer_view(t)) && t.dest_dir@
                    == self.dest@,
                None => true,
            },
    {
        match self.state {
            RState::Succeeded => None,
            _ => {
                let local = match host {
                    Some(_) => false,
                    None => true,
                };
                self.update(host, local)
            },
        }
    }

    /// Records the exit status of a copy: a successful one marks the resource copied,
    /// a failed one leaves it as it was.
    pub fn record(&mut self, success: bool)
        ensures
            final(self).state == (if success { RState::Succeeded } else { old(self).state }),
            final(self).src == old(self).src,
            final(self).dest == old(self).dest,
    {
        if success {
            self.state = RState::Succeeded;
        }
    }
}

/// The identities of a list's resources, in order.
pub open spec fn ids(items: Seq<Resource>) -> Seq<(Seq<char>, Seq<char>)> {
    items.map_values(|r: Resource| identity(r))
}

/// The identities after adding `id`: unchanged when it is already there.
pub open spec fn add_id(ids: Seq<(Seq<char>, Seq<char>)>, id: (Seq<char>, Seq<char>)) -> Seq<(Seq<char>, Seq<char>)> {
    if ids.contains(id) {
        ids
    } else {
        ids.push(id)
    }
}

/// The identity that `r` takes on when it is added to the list of `workdir`: its
/// destination under the working directory.
pub open spec fn added_identity(workdir: Seq<char>, r: Resource) -> (Seq<char>, Seq<char>) {
    (r.src@, join(workdir, r.dest@))
}

/// Adding a resource with the same source and destination as one just added, its
/// state aside, leaves the list as long as it was.
pub proof fn lemma_try_add_dedup(
    items: Seq<(Seq<char>, Seq<char>)>,
    workdir: Seq<char>,
    r1: Resource,
    r2: Resource,
)
    requires
        r1.src@ == r2.src@,
        r1.dest@ == r2.dest@,
    ensures
        add_id(add_id(items, added_identity(workdir, r1)), added_identity(workdir, r2)).len() == add_id(
            items,
            added_identity(workdir, r1),
        ).len(),
{
    let a = add_id(items, added_identity(workdir, r1));
    assert(a.contains(added_identity(workdir, r1))) by {
        if !items.contains(added_identity(workdir, r1)) {
            assert(a[a.len() - 1] == added_identity(workdir, r1));
        }
    }
}

/// A copied resource is fetched no more: no pass runs a copy of it, and recording
/// any outcome leaves it copied.
pub proof fn lemma_succeeded_stays(r: Resource)
    requires
        r.state == RState::Succeeded,
    ensures
        !fetches(r),
        forall|items: Seq<Resource>, i: int|
            0 <= i < items.len() && items[i] == r ==> !pending(items).contains(i),
{
    assert forall|items: Seq<Resource>, i: int|
        0 <= i < items.len() && items[i] == r implies !pending(items).contains(i) by {
        lemma_pending_fetches(items, i);
    }
}

proof fn lemma_pending_fetches(items: Seq<Resource>, i: int)
    requires
        0 <= i < items.len(),
        !fetches(items[i]),
    ensures
        !pending(items).contains(i),
    decreases items.len(),
{
    let prev = pending(items.drop_last());
    lemma_pending_below(items.drop_last());
    if i < items.len() - 1 {
        assert(items.drop_last()[i] == items[i]);
        lemma_pending_fetches(items.drop_last(), i);
    }
    assert forall|k: int| 0 <= k < pending(items).len() implies pending(items)[k] != i by {
        if k < prev.len() {
            assert(pending(items)[k] == prev[k]);
            if i < items.len() - 1 {
                assert(!prev.contains(i));
                if prev[k] == i {
                    assert(prev.contains(i));
                }
            } else {
                assert(prev[k] < items.len() - 1);
            }
        } else {
            assert(fetches(items.last()));
            assert(pending(items)[k] == items.len() - 1);
        }
    }
}

proof fn lemma_pending_below(items: Seq<Resource>)
    ensures
        forall|k: int| 0 <= k < pending(items).len() ==> 0 <= #[trigger] pending(items)[k] < items.len(),
    decreases items.len(),
{
    if items.len() > 0 {
        let prev = pending(items.drop_last());
        lemma_pending_below(items.drop_last());
        assert forall|k: int| 0 <= k < pending(items).len() implies 0 <= #[trigger] pending(items)[k] < items.len() by {
            if k < prev.len() {
                assert(pending(items)[k] == prev[k]);
            }
        }
    }
}

/// The positions of the resources that a pass fetches, in order.
pub open spec fn pending(items: Seq<Resource>) -> Seq<int>
    decreases items.len(),
{
    if items.len() == 0 {
        Seq::empty()
    } else {
        let prev = pending(items.drop_last());
        if fetches(items.last()) {
            prev.push(items.len() - 1)
        } else {
            prev
        }
    }
}

fn clone_host(h: &Option<Host>) -> (r: Option<Host>)
    ensures
        r == *h,
{
    match h {
        Some(x) => Some(x.clone()),
        None => None,
    }
}

impl ResourceList {
    /// An empty list for `work_dir`, with no host.
    pub fn new(work_dir: &str) -> (r: ResourceList)
        ensures
            r.workdir@ == work_dir@,
            r.item@.len() == 0,
            r.host.is_none(),
    {
        ResourceList { item: Vec::new(), host: None, workdir: String::from_str(work_dir) }
    }

    /// Adds `res` unless the list holds the same resource already. Its destination is
    /// taken under the working directory, and it is queued as remote when the list has
    /// a host.
    pub fn try_add(&mut self, res: Resource)
        ensures
            final(self).workdir == old(self).workdir,
            final(self).host == old(self).host,
            ids(final(self).item@) == add_id(ids(old(self).item@), added_identity(old(self).workdir@, res)),
            final(self).item@.len() >= old(self).item@.len(),
            forall|i: int| 0 <= i < old(self).item@.len() ==> final(self).item@[i] == old(self).item@[i],
            final(self).item@.len() > old(self).item@.len() ==> final(self).item@.last().state
                == queued_state(res.state, old(self).host),
    {
        let state = match res.state {
            RState::Succeeded => RState::Succeeded,
            _ => match &self.host {
                Some(_) => RState::Remote,
                None => RState::Local,
            },
        };
        let res = Resource { src: res.src, dest: join_path(self.workdir.as_str(), res.dest.as_str()), state };
        let mut i: usize = 0;
        let mut exists = false;
        while i < self.item.len()
            invariant
                i <= self.item@.len(),
                exists == (exists|j: int| 0 <= j < i && identity(#[trigger] self.item@[j]) == identity(res)),
            decreases self.item.len() - i,
        {
            if self.item[i].same(&res) {
                exists = true;
            }
            i = i + 1;
        }
        let ghost before = self.item@;
        proof {
            if exists {
                let j = choose|j: int| 0 <= j < i && identity(#[trigger] self.item@[j]) == identity(res);
                assert(ids(before)[j] == identity(res));
            } else {
                assert forall|j: int| 0 <= j < ids(before).len() implies ids(before)[j] != identity(res) by {
                    assert(identity(before[j]) != identity(res));
                }
            }
        }
        if !exists {
            self.item.push(res);
            proof {
                assert(ids(self.item@) =~= ids(before).push(identity(res)));
            }
        }
    }

    /// Sets the host that remote copies come from. The resources are left as they are:
    /// the host is passed down when a copy is described.
    pub fn set_host(&mut self, host: &Host)
        ensures
            final(self).host == Some(*host),
            final(self).workdir == old(self).workdir,
            final(self).item == old(self).item,
    {
        self.host = Some(host.clone());
    }

    /// The copies that one pass runs, in insertion order: one for each resource not yet
    /// copied, with its position in the list; from the list's host when it has one,
    /// locally otherwise.
    pub fn start_transfer(&self) -> (r: Vec<(usize, Transfer)>)
        ensures
            r@.len() == pending(self.item@).len(),
            forall|k: int|
                0 <= k < r@.len() ==> {
                    &&& (#[trigger] r@[k]).0 as int == pending(self.item@)[k]
                    &&& r@[k].0 < self.item@.len()
                    &&& transfer_words(self.item@[r@[k].0 as int], self.host, self.host.is_none()) == Some(
                        transfer_view(r@[k].1),
                    )
                    &&& r@[k].1.dest_dir@ == self.item@[r@[k].0 as int].dest@
                },
    {
        let mut out: Vec<(usize, Transfer)> = Vec::new();
        let n = self.item.len();
        let mut i: usize = 0;
        while i < n
            invariant
                n == self.item@.len(),
                i <= n,
                out@.len() == pending(self.item@.take(i as int)).len(),
                forall|k: int|
                    0 <= k < out@.len() ==> {
                        &&& (#[trigger] out@[k]).0 as int == pending(self.item@.take(i as int))[k]
                        &&& out@[k].0 < i
                        &&& transfer_words(self.item@[out@[k].0 as int], self.host, self.host.is_none()) == Some(
                            transfer_view(out@[k].1),
                        )
                        &&& out@[k].1.dest_dir@ == self.item@[out@[k].0 as int].dest@
                    },
            decreases n - i,
        {
            proof {
                assert(self.item@.take(i + 1).drop_last() == self.item@.take(i as int));
                assert(self.item@.take(i + 1).last() == self.item@[i as int]);
            }
            match self.item[i].fetch(&self.host) {
                Some(t) => {
                    out.push((i, t));
                },
                None => {},
            }
            i = i + 1;
        }
        proof {
            assert(self.item@.take(n as int) == self.item@);
        }
        out
    }

    /// Records the exit status of the copy of the resource at `i`; a resource already
    /// copied stays as it is, and so does every other resource.
    pub fn finish_transfer(&mut self, i: usize, success: bool)
        requires
            i < old(self).item@.len(),
        ensures
            final(self).workdir == old(self).workdir,
            final(self).host == old(self).host,
            final(self).item@.len() == old(self).item@.len(),
            forall|j: int| 0 <= j < old(self).item@.len() && j != i ==> final(self).item@[j] == old(self).item@[j],
            old(self).item@[i as int].state == RState::Succeeded ==> final(self).item@[i as int] == old(self).item@[i as int],
            identity(final(self).item@[i as int]) == identity(old(self).item@[i as int]),
            final(self).item@[i as int].state == (if success {
                RState::Succeeded
            } else {
                old(self).item@[i as int].state
            }),
    {
        let r = &self.item[i];
        let c = Resource {
            src: r.src.clone(),
            dest: r.dest.clone(),
            state: if success { RState::Succeeded } else { r.state },
        };
        self.item.set(i, c);
    }
}

/// Sets `remote_host` as the list's host and adds one resource for each ready entry
/// `(name, index)` of the volume index at `remote_vol_index_path`: the file `name`
/// beside the index, into the directory `m<index>`.
pub fn sync_raw_from_remote_host(list: &mut ResourceList, remote_vol_index_path: &str, remote_host: &Host, ready: &Vec<(String, String)>)
    ensures
        final(list).host == Some(*remote_host),
        final(list).workdir == old(list).workdir,
        ids(final(list).item@) == ready_ids(
            ids(old(list).item@),
            final(list).workdir@,
            parent(remote_vol_index_path@),
            ready@.map_values(|e: (String, String)| (e.0@, e.1@)),
        ),
{
    list.set_host(remote_host);
    let base = parent_of(remote_vol_index_path);
    let ghost start = ids(list.item@);
    let ghost rv = ready@.map_values(|e: (String, String)| (e.0@, e.1@));
    let mut i: usize = 0;
    while i < ready.len()
        invariant
            i <= ready@.len(),
            base@ == parent(remote_vol_index_path@),
            list.host == Some(*remote_host),
            list.workdir == old(list).workdir,
            start == ids(old(list).item@),
            rv == ready@.map_values(|e: (String, String)| (e.0@, e.1@)),
            ids(list.item@) == ready_ids(start, list.workdir@, base@, rv.take(i as int)),
        decreases ready.len() - i,
    {
        let src = join_path(base.as_str(), ready[i].0.as_str());
        let dest = concat("m", ready[i].1.as_str());
        proof {
            assert(rv.take(i + 1).drop_last() == rv.take(i as int));
            assert(rv[i as int] == (ready@[i as int].0@, ready@[i as int].1@));
        }
        list.try_add(Resource::new(src.as_str(), dest.as_str()));
        i = i + 1;
    }
    proof {
        assert(rv.take(ready@.len() as int) == rv);
    }
}

/// The identities after adding, for each ready entry `(name, index)`, the file `name` in
/// `base` into the directory `m<index>`.
pub open spec fn ready_ids(
    start: Seq<(Seq<char>, Seq<char>)>,
    workdir: Seq<char>,
    base: Seq<char>,
    ready: Seq<(Seq<char>, Seq<char>)>,
) -> Seq<(Seq<char>, Seq<char>)>
    decreases ready.len(),
{
    if ready.len() == 0 {
        start
    } else {
        let e = ready.last();
        add_id(ready_ids(start, workdir, base, ready.drop_last()), (join(base, e.0), join(workdir, "m"@ + e.1)))
    }
}

} // verus!
