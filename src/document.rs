use vstd::prelude::*;
use vstd::string::StringExecFns;
use std::path::PathBuf;

verus! {

#[verifier::external_type_specification]
#[verifier::external_body]
pub struct ExPathBuf(PathBuf);

/// The name a file is shown under when its path has no final component.
pub const UNTITLED: &'static str = "Untitled";

/// A file opened in the editor.
#[derive(Debug)]
pub struct FileInfo {
    pub path: String,
    pub name: String,
    pub content: String,
    pub modified: bool,
}

/// What the editor keeps between commands: the file that is open, if any.
#[derive(Debug, Default)]
pub struct AppState {
    pub current_file: Option<PathBuf>,
}

impl FileInfo {
    /// A file just read from `path`, unmodified, named by the final
    /// component of its path, or `Untitled` where there is none.
    pub fn opened(path: &str, file_name: Option<String>, content: String) -> (r: FileInfo)
        ensures
            r.path@ == path@,
            r.name@ == match file_name {
                Some(n) => n@,
                None => UNTITLED@,
            },
            r.content@ == content@,
            !r.modified,
    {
        let name = match file_name {
            Some(n) => n,
            None => String::from_str(UNTITLED),
        };
        FileInfo { path: String::from_str(path), name, content, modified: false }
    }
}

} // verus!
