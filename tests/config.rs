use cs_reco::bart_wrapper::BartPicsSettings;
use cs_reco::config::{engine_work_dir, ProjectSettings, Recon, Scanner};
use cs_reco::resource::Host;

#[test]
fn missing_scanner_descriptor_gives_a_template() {
    let a = Scanner::new_template("grumpy");
    let b = Scanner::new_template("grumpy");
    assert_eq!(a.label, "grumpy");
    assert_eq!(a.vendor, "mrsolutions");
    assert_eq!(a.vol_meta_suffix, "_meta.txt");
    assert_eq!(a.image_code, "t9");
    assert_eq!(a.image_source_tag, "imx");
    assert_eq!(format!("{:?}", a), format!("{:?}", b));
    let h: Host = a.host();
    assert_eq!(h.user, "user");
    assert_eq!(h.name, "hostname");
}

#[test]
fn test_test() {
    let scanner = Scanner::new_template("grumpy");
    let project = ProjectSettings::new_template("5xfad");
    assert_eq!(project.project_code, "22.project.01");
    let r = Recon::new("N60400", "220304", "some/data", "/big", "someone", scanner, project);
    assert_eq!(r.path(), "N60400.json");
    assert_eq!(r.work_dir(), "/big/N60400.work");
    assert_eq!(r.n_volumes, None);
}

#[test]
fn engine_work_dir_prefers_the_big_disk() {
    assert_eq!(engine_work_dir(Some("/big"), Some("/home/u")), Some("/big".to_string()));
    assert_eq!(engine_work_dir(None, Some("/home/u")), Some("/home/u".to_string()));
    assert_eq!(engine_work_dir(None, None), None);
}

#[test]
fn solver_command_lines() {
    let s = BartPicsSettings::quick();
    assert_eq!(s.max_iter, 2);
    let args = s.pics_args("/w/k", "/w/i");
    assert_eq!(args, vec!["pics", "-l1", "-r0.005", "-i2", "-S", "-d5", "/w/k", "", "/w/i"]);
    let mut d = BartPicsSettings::default();
    d.respect_scaling = false;
    d.debug = false;
    d.set_bart_binary("/opt/bart/bart");
    assert_eq!(d.bart_binary, "/opt/bart/bart");
    let sens = BartPicsSettings::unit_sens_path("/w/0/foo_kspace.cfl");
    assert_eq!(sens, "/w/0/foo_kspace_sens");
    let ones = d.set_unit_coil_sens(&sens, &vec![480, 480, 64]);
    assert_eq!(ones, vec!["ones", "3", "480", "480", "64", "/w/0/foo_kspace_sens"]);
    assert_eq!(d.pics_args("k", "i"), vec!["pics", "-l1", "-r0.005", "-i36", "k", "/w/0/foo_kspace_sens", "i"]);
    assert!(!d.needs_unit_sens(&Some(vec![480, 480, 64]), &vec![480, 480, 64]));
    assert!(d.needs_unit_sens(&Some(vec![480, 64]), &vec![480, 480, 64]));
    assert!(d.needs_unit_sens(&None, &vec![480]));
    assert!(BartPicsSettings::default().needs_unit_sens(&Some(vec![1]), &vec![1]));
}

#[test]
fn solver_command_head() {
    let s = BartPicsSettings::default();
    assert_eq!(s.cmd_stub(), "bart pics -l1 -0.005 -i36 -S -d5");
    let mut q = BartPicsSettings::quick();
    q.debug = false;
    assert_eq!(q.cmd_stub(), "bart pics -l1 -0.005 -i2 -S ");
}
