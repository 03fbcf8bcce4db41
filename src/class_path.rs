//! Class-path entries. Reading the files is the host's part; the runtime
//! only forms the paths.
use vstd::prelude::*;
use vstd::string::*;

verus! {

/// A directory on the class path.
pub struct DirEntry {
    pub abs_dir: String,
}

impl DirEntry {
    /// The entry for a directory; the host checks that it exists.
    pub fn new(class_path: &String) -> (r: DirEntry)
        ensures
            r.abs_dir@ == class_path@,
    {
        DirEntry { abs_dir: class_path.clone() }
    }

    /// The path of a class file under this directory: `dir/name`.
    pub fn class_file_path(&self, class_name: &str) -> (r: String)
        ensures
            r@ == self.abs_dir@ + seq!['/'] + class_name@,
    {
        let mut p = self.abs_dir.clone();
        crate::class_file::push_char(&mut p, '/');
        p.append(class_name);
        p
    }

    /// The directory, as shown in diagnostics.
    pub fn to_string(&self) -> (r: String)
        ensures
            r@ == self.abs_dir@,
    {
        self.abs_dir.clone()
    }
}

/// Settings fixed at start-up.
pub struct GlobalConfig {
    pub boot_lib_path: String,
    pub os: String,
}

impl GlobalConfig {
    pub fn new(os: &str) -> (r: GlobalConfig)
        ensures
            r.boot_lib_path@.len() == 0,
            r.os@ == os@,
    {
        GlobalConfig { boot_lib_path: String::new(), os: String::from_str(os) }
    }
}

} // verus!
