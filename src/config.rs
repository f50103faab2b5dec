//! The run's descriptors: the scanner, the project with its solver settings, and
//! the run itself. Opening a missing descriptor yields a template.
use vstd::prelude::*;
use crate::bart_wrapper::BartPicsSettings;
use crate::paths::{concat, join, join_path};
use crate::resource::Host;

verus! {

/// The scanner that produces the raw files.
#[derive(Debug)]
pub struct Scanner {
    pub label: String,
    pub username: String,
    pub hostname: String,
    pub vendor: String,
    pub vol_meta_suffix: String,
    pub image_code: String,
    pub image_source_tag: String,
}

/// A project and the solver settings its runs use.
#[derive(Debug)]
pub struct ProjectSettings {
    pub label: String,
    pub project_code: String,
    pub recon_settings: BartPicsSettings,
}

/// One reconstruction run.
#[derive(Debug)]
pub struct Recon {
    pub run_number: String,
    pub specimen_id: String,
    pub volume_data: String,
    pub engine_work_dir: String,
    pub recon_person: String,
    pub n_volumes: Option<usize>,
    pub scanner: Scanner,
    pub project: ProjectSettings,
}

impl Scanner {
    /// The template for a scanner not yet described.
    pub fn new_template(label: &str) -> (r: Scanner)
        ensures
            r.label@ == label@,
            r.vendor@ == "mrsolutions"@,
            r.vol_meta_suffix@ == "_meta.txt"@,
            r.image_code@ == "t9"@,
            r.image_source_tag@ == "imx"@,
            r.username@ == "user"@,
            r.hostname@ == "hostname"@,
    {
        Scanner {
            label: String::from_str(label),
            vendor: String::from_str("mrsolutions"),
            vol_meta_suffix: String::from_str("_meta.txt"),
            image_code: String::from_str("t9"),
            image_source_tag: String::from_str("imx"),
            username: String::from_str("user"),
            hostname: String::from_str("hostname"),
        }
    }

    /// The host to copy raw files from.
    pub fn host(&self) -> (r: Host)
        ensures
            r.user@ == self.username@,
            r.name@ == self.hostname@,
    {
        Host::new(self.username.as_str(), self.hostname.as_str())
    }
}

impl ProjectSettings {
    /// The template for a project not yet described.
    pub fn new_template(label: &str) -> (r: ProjectSettings)
        ensures
            r.label@ == label@,
            r.project_code@ == "22.project.01"@,
            r.recon_settings.bart_binary@ == "bart"@,
            r.recon_settings.max_iter == 36,
            r.recon_settings.algorithm@ == "l1"@,
            r.recon_settings.respect_scaling,
            r.recon_settings.regularization@ == "0.005"@,
            r.recon_settings.debug,
            r.recon_settings.coil_sensitivity@.len() == 0,
    {
        ProjectSettings {
            label: String::from_str(label),
            project_code: String::from_str("22.project.01"),
            recon_settings: BartPicsSettings::default(),
        }
    }
}

/// The engine working directory: the one named by the environment's big-disk
/// variable, else the home directory.
pub fn engine_work_dir(big_disk: Option<&str>, home: Option<&str>) -> (r: Option<String>)
    ensures
        match big_disk {
            Some(d) => r.is_some() && r.unwrap()@ == d@,
            None => match home {
                Some(h) => r.is_some() && r.unwrap()@ == h@,
                None => r.is_none(),
            },
        },
{
    match big_disk {
        Some(d) => Some(String::from_str(d)),
        None => match home {
            Some(h) => Some(String::from_str(h)),
            None => None,
        },
    }
}

impl Recon {
    /// A new run, its volume count not yet known.
    pub fn new(
        runno: &str,
        specimen_id: &str,
        vol_data: &str,
        engine_work_dir: &str,
        recon_person: &str,
        scanner: Scanner,
        project: ProjectSettings,
    ) -> (r: Recon)
        ensures
            r.run_number@ == runno@,
            r.specimen_id@ == specimen_id@,
            r.volume_data@ == vol_data@,
            r.engine_work_dir@ == engine_work_dir@,
            r.recon_person@ == recon_person@,
            r.n_volumes.is_none(),
            r.scanner == scanner,
            r.project == project,
    {
        Recon {
            run_number: String::from_str(runno),
            specimen_id: String::from_str(specimen_id),
            volume_data: String::from_str(vol_data),
            engine_work_dir: String::from_str(engine_work_dir),
            recon_person: String::from_str(recon_person),
            n_volumes: None,
            scanner,
            project,
        }
    }

    /// The run's descriptor file: `<run>.json`.
    pub fn path(&self) -> (r: String)
        ensures
            r@ == self.run_number@ + ".json"@,
    {
        concat(self.run_number.as_str(), ".json")
    }

    /// The run's working directory: `<engine work dir>/<run>.work`.
    pub fn work_dir(&self) -> (r: String)
        ensures
            r@ == join(self.engine_work_dir@, self.run_number@ + ".work"@),
    {
        let w = concat(self.run_number.as_str(), ".work");
        join_path(self.engine_work_dir.as_str(), w.as_str())
    }

    /// Records how many volumes the index lists.
    pub fn set_n_volumes(&mut self, n: usize)
        ensures
            final(self).n_volumes == Some(n),
            final(self).run_number == old(self).run_number,
            final(self).engine_work_dir == old(self).engine_work_dir,
    {
        self.n_volumes = Some(n);
    }
}

} // verus!
