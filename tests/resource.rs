use cs_reco::resource::{sync_raw_from_remote_host, Host, RState, Resource, ResourceList};
use cs_reco::supervisor::enqueue_ready;
use cs_reco::volume_index::VolumeIndex;

#[test]
fn remote_copy_idempotence() {
    let mut rl = ResourceList::new("/w/raw");
    rl.set_host(&Host::new("mrs", "stejskal"));
    rl.try_add(Resource::new("/d/a.mrd", ""));
    rl.try_add(Resource::new("/d/a_meta.txt", ""));
    let mut copies = 0;
    for (i, t) in rl.start_transfer() {
        assert_eq!(t.program, "scp");
        copies += 1;
        rl.finish_transfer(i, true);
    }
    assert_eq!(copies, 2);
    assert!(rl.item.iter().all(|r| r.state == RState::Succeeded));
    let second = rl.start_transfer();
    assert_eq!(second.len(), 0);
    assert!(rl.item.iter().all(|r| r.state == RState::Succeeded));
}

#[test]
fn failed_copy_is_retried_next_pass() {
    let mut rl = ResourceList::new("/w");
    rl.try_add(Resource::new("/d/a", "x"));
    rl.try_add(Resource::new("/d/b", "x"));
    let plan = rl.start_transfer();
    assert_eq!(plan.len(), 2);
    assert_eq!(plan[0].1.program, "cp");
    assert_eq!(plan[0].1.args, vec!["-p".to_string(), "/d/a".to_string(), "/w/x".to_string()]);
    assert_eq!(plan[0].1.dest_dir, "/w/x");
    rl.finish_transfer(plan[0].0, true);
    rl.finish_transfer(plan[1].0, false);
    let again = rl.start_transfer();
    assert_eq!(again.len(), 1);
    assert_eq!(again[0].0, 1);
    rl.finish_transfer(0, false);
    assert_eq!(rl.item[0].state, RState::Succeeded);
}

#[test]
fn deduplication_ignores_state() {
    let mut rl = ResourceList::new("/w");
    rl.try_add(Resource::new("/d/a", "m0"));
    let n = rl.item.len();
    let mut again = Resource::new("/d/a", "m0");
    again.record(true);
    rl.try_add(again);
    assert_eq!(rl.item.len(), n);
    rl.try_add(Resource::new("/d/a", "m1"));
    assert_eq!(rl.item.len(), n + 1);
    rl.set_host(&Host::new("u", "h"));
    rl.try_add(Resource::new("/d/a", "m1"));
    assert_eq!(rl.item.len(), n + 1);
}

#[test]
fn copied_resource_stays_copied() {
    let mut r = Resource::new("/d/a", "/w");
    r.record(true);
    assert!(r.fetch(&None).is_none());
    assert!(r.fetch(&Some(Host::new("u", "h"))).is_none());
    r.record(false);
    assert_eq!(r.state, RState::Succeeded);
    let mut rl = ResourceList::new("/w");
    rl.try_add(r);
    rl.set_host(&Host::new("u", "h"));
    assert_eq!(rl.item[0].state, RState::Succeeded);
    assert!(rl.start_transfer().is_empty());
}

#[test]
fn remote_transfer_words() {
    let (r, t) = VolumeIndex::fetch_from("/d/volume_index.txt", &Host::new("mrs", "stejskal"), "/w");
    assert_eq!(r.state, RState::Remote);
    assert_eq!(t.program, "scp");
    assert_eq!(t.args, vec!["-Bp".to_string(), "mrs@stejskal:/d/volume_index.txt".to_string(), "/w".to_string()]);
    assert_eq!(t.dest_dir, "/w");
    assert_eq!(r.local_path(), "/w/volume_index.txt");
    assert_eq!(r.local_dir(), "/w");
    assert!(Resource::new("/a", "/b").update(&None, false).is_none());
    assert_eq!(Resource::new("/a", "/b").update(&None, true).unwrap().program, "cp");
}

#[test]
fn host_set_later_applies_to_queued_copies() {
    let mut rl = ResourceList::new("/w");
    rl.try_add(Resource::new("/d/a", "x"));
    assert_eq!(rl.item[0].state, RState::Local);
    rl.set_host(&Host::new("mrs", "stejskal"));
    let plan = rl.start_transfer();
    assert_eq!(plan.len(), 1);
    assert_eq!(plan[0].1.program, "scp");
    assert_eq!(plan[0].1.args[1], "mrs@stejskal:/d/a");
}

#[test]
fn sync_and_enqueue() {
    let host = Host::new("mrs", "stejskal");
    let ready = VolumeIndex::read_ready("a.mrd 0\nb.mrd\nc.mrd 2\n");
    let mut rl = ResourceList::new("/w/transfer");
    sync_raw_from_remote_host(&mut rl, "/d/run/volume_index.txt", &host, &ready);
    assert_eq!(rl.item.len(), 2);
    assert_eq!(rl.item[0].src, "/d/run/a.mrd");
    assert_eq!(rl.item[0].dest, "/w/transfer/m0");
    assert_eq!(rl.item[1].dest, "/w/transfer/m2");
    assert_eq!(rl.item[0].state, RState::Remote);
    let mut raw = ResourceList::new("/w/raw");
    raw.set_host(&host);
    enqueue_ready(&mut raw, "/d/run", &ready, "_meta.txt");
    enqueue_ready(&mut raw, "/d/run", &ready, "_meta.txt");
    let srcs: Vec<&str> = raw.item.iter().map(|r| r.src.as_str()).collect();
    assert_eq!(srcs, vec!["/d/run/a.mrd", "/d/run/a_meta.txt", "/d/run/c.mrd", "/d/run/c_meta.txt"]);
    assert_eq!(raw.item[0].dest, "/w/raw/");
}
