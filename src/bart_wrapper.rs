//! The reconstruction solver's settings and the command lines that run it.
use vstd::prelude::*;
use crate::paths::{concat, file_name, file_name_of, join, join_path, parent, parent_of, stem, stem_of};
use crate::text::{decimal, decimal_string};

verus! {

/// The solver's settings. The regularization weight is kept as the decimal text
/// that the command line carries.
#[derive(Debug)]
pub struct BartPicsSettings {
    pub bart_binary: String,
    pub max_iter: u32,
    pub algorithm: String,
    pub respect_scaling: bool,
    pub regularization: String,
    pub debug: bool,
    pub coil_sensitivity: String,
}

/// The words of a solver run on `kspace` with sensitivities `sens` into `image`.
pub open spec fn pics_words(s: BartPicsSettings, kspace: Seq<char>, image: Seq<char>) -> Seq<Seq<char>> {
    let a = seq!["pics"@, "-"@ + s.algorithm@, "-r"@ + s.regularization@, "-i"@ + decimal(s.max_iter as nat)];
    let b = if s.respect_scaling { a.push("-S"@) } else { a };
    let c = if s.debug { b.push("-d5"@) } else { b };
    c + seq![kspace, s.coil_sensitivity@, image]
}

/// The words that make unit sensitivities of the dimensions `dims` at `sens`.
pub open spec fn ones_words(sens: Seq<char>, dims: Seq<usize>) -> Seq<Seq<char>> {
    seq!["ones"@, decimal(dims.len() as nat)] + dims.map_values(|d: usize| decimal(d as nat)) + seq![sens]
}

/// The unit-sensitivity array beside an array file: its name without extension, then `_sens`.
pub open spec fn sens_path(cfl: Seq<char>) -> Seq<char> {
    join(parent(cfl), stem(file_name(cfl)) + "_sens"@)
}

fn same_dims(d: &Vec<usize>, e: &Vec<usize>) -> (r: bool)
    ensures
        r == (d@ == e@),
{
    if d.len() != e.len() {
        return false;
    }
    let mut i: usize = 0;
    while i < d.len()
        invariant
            d@.len() == e@.len(),
            i <= d@.len(),
            forall|j: int| 0 <= j < i ==> d@[j] == e@[j],
        decreases d.len() - i,
    {
        if d[i] != e[i] {
            return false;
        }
        i = i + 1;
    }
    proof {
        assert(d@ =~= e@);
    }
    true
}

impl BartPicsSettings {
    /// The settings a new project starts from.
    pub fn default() -> (r: BartPicsSettings)
        ensures
            r.bart_binary@ == "bart"@,
            r.max_iter == 36,
            r.algorithm@ == "l1"@,
            r.respect_scaling,
            r.regularization@ == "0.005"@,
            r.debug,
            r.coil_sensitivity@.len() == 0,
    {
        BartPicsSettings {
            bart_binary: String::from_str("bart"),
            max_iter: 36,
            algorithm: String::from_str("l1"),
            respect_scaling: true,
            regularization: String::from_str("0.005"),
            debug: true,
            coil_sensitivity: String::new(),
        }
    }

    /// The default settings with two iterations, for trial runs.
    pub fn quick() -> (r: BartPicsSettings)
        ensures
            r.bart_binary@ == "bart"@,
            r.max_iter == 2,
            r.algorithm@ == "l1"@,
            r.respect_scaling,
            r.regularization@ == "0.005"@,
            r.debug,
            r.coil_sensitivity@.len() == 0,
    {
        let mut s = BartPicsSettings::default();
        s.max_iter = 2;
        s
    }

    /// The solver's command head: program, `pics`, and the flags, space-separated, with
    /// an empty word for a flag that is off.
    pub fn cmd_stub(&self) -> (r: String)
        ensures
            r@ == self.bart_binary@ + " pics -"@ + self.algorithm@ + " -"@ + self.regularization@ + " -i"@
                + decimal(self.max_iter as nat) + " "@ + (if self.respect_scaling {
                "-S"@
            } else {
                ""@
            }) + " "@ + (if self.debug {
                "-d5"@
            } else {
                ""@
            }),
    {
        let a = concat(self.bart_binary.as_str(), " pics -");
        let b = concat(a.as_str(), self.algorithm.as_str());
        let c = concat(b.as_str(), " -");
        let d = concat(c.as_str(), self.regularization.as_str());
        let e = concat(d.as_str(), " -i");
        let it = decimal_string(self.max_iter as u64);
        let f = concat(e.as_str(), it.as_str());
        let g = concat(f.as_str(), " ");
        let h = concat(g.as_str(), if self.respect_scaling { "-S" } else { "" });
        let i = concat(h.as_str(), " ");
        concat(i.as_str(), if self.debug { "-d5" } else { "" })
    }

    /// Sets the solver program.
    pub fn set_bart_binary(&mut self, binary_path: &str)
        ensures
            final(self).bart_binary@ == binary_path@,
            final(self).max_iter == old(self).max_iter,
            final(self).algorithm == old(self).algorithm,
            final(self).respect_scaling == old(self).respect_scaling,
            final(self).regularization == old(self).regularization,
            final(self).debug == old(self).debug,
            final(self).coil_sensitivity == old(self).coil_sensitivity,
    {
        self.bart_binary = String::from_str(binary_path);
    }

    /// The arguments of a solver run on `kspace` into `image`, with the settings'
    /// sensitivities.
    pub fn pics_args(&self, kspace: &str, image: &str) -> (r: Vec<String>)
        ensures
            r.deep_view() == pics_words(*self, kspace@, image@),
    {
        let mut v: Vec<String> = Vec::new();
        v.push(String::from_str("pics"));
        v.push(concat("-", self.algorithm.as_str()));
        v.push(concat("-r", self.regularization.as_str()));
        let it = decimal_string(self.max_iter as u64);
        v.push(concat("-i", it.as_str()));
        if self.respect_scaling {
            v.push(String::from_str("-S"));
        }
        if self.debug {
            v.push(String::from_str("-d5"));
        }
        v.push(String::from_str(kspace));
        v.push(self.coil_sensitivity.clone());
        v.push(String::from_str(image));
        proof {
            assert(v.deep_view() =~= pics_words(*self, kspace@, image@));
        }
        v
    }

    /// Uses unit sensitivities at `sens_cfl` of the dimensions `dims`, and gives the
    /// arguments of the solver run that makes them.
    pub fn set_unit_coil_sens(&mut self, sens_cfl: &str, dims: &Vec<usize>) -> (r: Vec<String>)
        ensures
            final(self).coil_sensitivity@ == sens_cfl@,
            final(self).bart_binary == old(self).bart_binary,
            final(self).max_iter == old(self).max_iter,
            final(self).algorithm == old(self).algorithm,
            final(self).respect_scaling == old(self).respect_scaling,
            final(self).regularization == old(self).regularization,
            final(self).debug == old(self).debug,
            r.deep_view() == ones_words(sens_cfl@, dims@),
    {
        self.coil_sensitivity = String::from_str(sens_cfl);
        let mut v: Vec<String> = Vec::new();
        v.push(String::from_str("ones"));
        v.push(decimal_string(dims.len() as u64));
        let mut i: usize = 0;
        while i < dims.len()
            invariant
                i <= dims@.len(),
                v.deep_view() == seq!["ones"@, decimal(dims@.len() as nat)] + dims@.take(i as int).map_values(
                    |d: usize| decimal(d as nat),
                ),
            decreases dims.len() - i,
        {
            let ghost before = v.deep_view();
            v.push(decimal_string(dims[i] as u64));
            proof {
                assert(dims@.take(i + 1).map_values(|d: usize| decimal(d as nat)) =~= dims@.take(i as int).map_values(
                    |d: usize| decimal(d as nat),
                ).push(decimal(dims@[i as int] as nat)));
                assert(v.deep_view() =~= before.push(decimal(dims@[i as int] as nat)));
            }
            i = i + 1;
        }
        let ghost before = v.deep_view();
        v.push(String::from_str(sens_cfl));
        proof {
            assert(dims@.take(dims@.len() as int) == dims@);
            assert(v.deep_view() =~= before.push(sens_cfl@));
        }
        v
    }

    /// The unit-sensitivity array for the array file `cfl`: its name without extension,
    /// then `_sens`.
    pub fn unit_sens_path(cfl: &str) -> (r: String)
        ensures
            r@ == sens_path(cfl@),
    {
        let dir = parent_of(cfl);
        let name = file_name_of(cfl);
        let st = stem_of(name.as_str());
        let s = concat(st.as_str(), "_sens");
        join_path(dir.as_str(), s.as_str())
    }

    /// Whether unit sensitivities are made afresh: when none are set, or when the set
    /// ones' dimensions (none if they cannot be read) differ from the k-space's.
    pub fn needs_unit_sens(&self, sens_dims: &Option<Vec<usize>>, kspace_dims: &Vec<usize>) -> (r: bool)
        ensures
            r == (self.coil_sensitivity@.len() == 0 || match sens_dims {
                Some(d) => d@ != kspace_dims@,
                None => true,
            }),
    {
        if self.coil_sensitivity.as_str().unicode_len() == 0 {
            return true;
        }
        match sens_dims {
            None => true,
            Some(d) => !same_dims(d, kspace_dims),
        }
    }
}

} // verus!
