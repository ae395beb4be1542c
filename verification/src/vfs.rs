//! The virtual forensic filesystem: one way to read static evidence, whatever
//! its source (a live device, an extracted directory, an archive).

use vstd::prelude::*;
use crate::error::{OracleError, OracleResult};
use crate::hash::{hex_lower, sha256_of, ForensicHash};
use crate::text::{has_infix, owned, str_contains};

verus! {

/// The kind of forensic input source.
#[derive(Debug, Clone, Copy, PartialEq, Eq, Structural)]
pub enum InputSourceType {
    /// A live device over ADB.
    LiveDevice,
    /// An extracted directory tree on the host.
    DirectoryExtraction,
    /// A ZIP archive of an extracted filesystem.
    ZipExtraction,
    /// One artifact file with an explicit type.
    SingleArtifact,
}

impl InputSourceType {
    /// The display label.
    pub fn display_text(&self) -> (s: String)
        ensures
            s@ == match *self {
                InputSourceType::LiveDevice => "Live Device (ADB)"@,
                InputSourceType::DirectoryExtraction => "Directory Extraction"@,
                InputSourceType::ZipExtraction => "ZIP Archive"@,
                InputSourceType::SingleArtifact => "Single Artifact"@,
            },
    {
        match self {
            InputSourceType::LiveDevice => owned("Live Device (ADB)"),
            InputSourceType::DirectoryExtraction => owned("Directory Extraction"),
            InputSourceType::ZipExtraction => owned("ZIP Archive"),
            InputSourceType::SingleArtifact => owned("Single Artifact"),
        }
    }
}

/// Metadata of a forensic input source.
#[derive(Debug, Clone)]
pub struct InputSourceMetadata {
    /// The kind of source.
    pub source_type: InputSourceType,
    /// Serial, directory, archive or file path.
    pub identifier: String,
    /// Whether the source's integrity was verified.
    pub integrity_verified: bool,
    /// When the source was ingested, in milliseconds since the Unix epoch.
    pub ingested_at: i64,
}

/// Metadata of a node of the virtual filesystem.
#[derive(Debug, Clone)]
pub struct VfsNodeMetadata {
    pub name: String,
    pub is_dir: bool,
    pub size_bytes: u64,
}

/// Read access to static evidence by virtual path. What a source holds is
/// the source's business; `contents` and `present` name it, and the
/// operations answer by them.
pub trait VirtualFileSystem {
    /// The contents of the file at `path`, or `None` when it cannot be read.
    spec fn contents(&self, path: Seq<char>) -> Option<Seq<u8>>;

    /// Whether `path` is present in the source.
    spec fn present(&self, path: Seq<char>) -> bool;

    /// The complete contents of a file.
    fn read_file(&self, virtual_path: &str) -> (r: OracleResult<Vec<u8>>)
        ensures
            match r {
                Ok(b) => self.contents(virtual_path@) == Some(b@),
                Err(_) => self.contents(virtual_path@) is None,
            },
    ;

    /// The metadata of a node.
    fn get_metadata(&self, virtual_path: &str) -> OracleResult<VfsNodeMetadata>;

    /// Whether a path exists (`exists` is a reserved word of the verifier).
    fn path_exists(&self, virtual_path: &str) -> (r: bool)
        ensures
            r == self.present(virtual_path@),
    ;

    /// The children of a directory, as relative paths.
    fn list_dir(&self, virtual_path: &str) -> OracleResult<Vec<String>>;

    /// The SHA-256 of a file's contents, in lowercase hexadecimal.
    fn hash_file(&self, virtual_path: &str) -> (r: OracleResult<String>)
        default_ensures
            r matches Ok(h) ==> self.contents(virtual_path@) matches Some(c) && h@ == hex_lower(
                sha256_of(c),
            ),
            r is Err ==> self.contents(virtual_path@) is None,
    {
        match self.read_file(virtual_path) {
            Ok(content) => {
                let h = ForensicHash::from_bytes(content.as_slice()).to_hex();
                proof {
                    assert(h@ == hex_lower(sha256_of(content@)));
                }
                Ok(h)
            },
            Err(e) => Err(e),
        }
    }
}

/// An image double for tests: every path that names `build.prop` is a file
/// holding `build_prop`; a path naming `com.android.settings` is present
/// when `exists_settings` says so; nothing else exists.
#[derive(Debug, Clone)]
pub struct MockVfs {
    pub build_prop: String,
    pub exists_settings: bool,
}

impl VirtualFileSystem for MockVfs {
    open spec fn contents(&self, path: Seq<char>) -> Option<Seq<u8>> {
        if has_infix(path, "build.prop"@) {
            Some(vstd::utf8::encode_utf8(self.build_prop@))
        } else {
            None
        }
    }

    open spec fn present(&self, path: Seq<char>) -> bool {
        has_infix(path, "build.prop"@) || (has_infix(path, "com.android.settings"@)
            && self.exists_settings)
    }

    fn read_file(&self, virtual_path: &str) -> (r: OracleResult<Vec<u8>>) {
        if str_contains(virtual_path, "build.prop") {
            Ok(vstd::slice::slice_to_vec(self.build_prop.as_str().as_bytes()))
        } else {
            Err(OracleError::IoError { path: owned(virtual_path), source: owned("not found") })
        }
    }

    fn get_metadata(&self, virtual_path: &str) -> OracleResult<VfsNodeMetadata> {
        Err(OracleError::IoError { path: owned(virtual_path), source: owned("not found") })
    }

    fn path_exists(&self, virtual_path: &str) -> (r: bool) {
        if str_contains(virtual_path, "build.prop") {
            true
        } else if str_contains(virtual_path, "com.android.settings") {
            self.exists_settings
        } else {
            false
        }
    }

    fn list_dir(&self, virtual_path: &str) -> OracleResult<Vec<String>> {
        Ok(Vec::new())
    }
}

/// The hash text of file contents.
pub fn contents_hash(content: &[u8]) -> (r: String)
    ensures
        r@ == hex_lower(sha256_of(content@)),
{
    ForensicHash::from_bytes(content).to_hex()
}

} // verus!
