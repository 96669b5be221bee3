//! The export of freshly built binaries: whether it takes place, and which
//! files make up the exported directory.

use vstd::prelude::*;
use crate::archive::ARCHIVE_NAME;
use crate::features::names_of;
use crate::key::{key_of, BuildIdentity};

verus! {

/// The file of the exported directory that holds the package version.
pub const TAG_FILE: &'static str = "tag.txt";

/// The file of the exported directory that holds the cache key.
pub const KEY_FILE: &'static str = "key.txt";

/// Decides whether binaries are exported, and where to.
///
/// They are exported only from a checkout whose revision is known and only
/// when a staging directory is configured: `half_hash` is the short hash of
/// the current revision, if there is one, and `staging_directory` the
/// configured directory, if there is one.
pub fn should_export(half_hash: Option<&str>, staging_directory: Option<String>) -> (directory:
    Option<String>)
    ensures
        directory == if half_hash is Some {
            staging_directory
        } else {
            None
        },
{
    match half_hash {
        Some(_) => staging_directory,
        None => None,
    }
}

/// How a platform names the file of a compiled library.
#[derive(Clone, Copy, Debug, PartialEq, Eq, Structural)]
pub enum LibraryNaming {
    /// `lib<name>.a`
    Prefixed,
    /// `<name>.lib`
    Suffixed,
}

/// The file name of the library `name` under a naming convention.
pub open spec fn library_filename(naming: LibraryNaming, name: Seq<char>) -> Seq<char> {
    match naming {
        LibraryNaming::Prefixed => "lib"@ + name + ".a"@,
        LibraryNaming::Suffixed => name + ".lib"@,
    }
}

/// Converts a library name to the name of its file.
pub fn library_to_filename(naming: LibraryNaming, name: &str) -> (filename: String)
    ensures
        filename@ == library_filename(naming, name@),
{
    match naming {
        LibraryNaming::Prefixed => {
            let mut filename = "lib".to_owned();
            filename.append(name);
            filename.append(".a");
            filename
        },
        LibraryNaming::Suffixed => {
            let mut filename = name.to_owned();
            filename.append(".lib");
            filename
        },
    }
}

/// The files that make up one cached unit, besides the two metadata files.
#[derive(Clone, Debug, PartialEq, Eq)]
pub struct ArtifactManifest {
    /// How the target names library files.
    pub naming: LibraryNaming,
    /// Names of the primary compiled libraries.
    pub primary_libraries: Vec<String>,
    /// Names of the auxiliary compiled libraries.
    pub auxiliary_libraries: Vec<String>,
    /// Names of further files of the output directory, taken as they are.
    pub additional_files: Vec<String>,
}

/// A file that the export writes: its name inside the exported directory and
/// its exact contents.
#[derive(Clone, Debug, PartialEq, Eq)]
pub struct MetadataFile {
    pub name: String,
    pub contents: Vec<u8>,
}

/// A metadata file as a value.
pub struct Written {
    pub name: Seq<char>,
    pub contents: Seq<u8>,
}

impl View for MetadataFile {
    type V = Written;

    open spec fn view(&self) -> Written {
        Written { name: self.name@, contents: self.contents@ }
    }
}

/// The two metadata files of an exported directory: the tag file holds the
/// bytes of the package version and the key file the bytes of the cache key,
/// with nothing added.
pub open spec fn metadata_of(tag: Seq<char>, key: Seq<char>) -> Seq<Written> {
    seq![
        Written { name: TAG_FILE@, contents: vstd::utf8::encode_utf8(tag) },
        Written { name: KEY_FILE@, contents: vstd::utf8::encode_utf8(key) },
    ]
}

/// Lists the metadata files that tell the tag and the key of the binaries.
pub fn metadata_files(tag: &str, key: &str) -> (files: Vec<MetadataFile>)
    ensures
        files@.map_values(|file: MetadataFile| file@) == metadata_of(tag@, key@),
{
    let mut files: Vec<MetadataFile> = Vec::new();
    files.push(MetadataFile { name: TAG_FILE.to_owned(), contents: tag.as_bytes_vec() });
    files.push(MetadataFile { name: KEY_FILE.to_owned(), contents: key.as_bytes_vec() });
    assert(files@.map_values(|file: MetadataFile| file@) =~= metadata_of(tag@, key@));
    files
}

/// Where the source of a copy is looked up.
#[derive(Clone, Copy, Debug, PartialEq, Eq, Structural)]
pub enum Origin {
    /// Below the directory of the package's sources.
    SourceTree,
    /// Below the output directory of the build.
    OutputDirectory,
}

/// One file to copy into the exported directory.
#[derive(Clone, Debug, PartialEq, Eq)]
pub struct CopyStep {
    pub origin: Origin,
    /// Path of the file below its origin.
    pub source: String,
    /// Path of the copy below the exported directory.
    pub destination: String,
}

/// A copy step as a value.
pub struct Copied {
    pub origin: Origin,
    pub source: Seq<char>,
    pub destination: Seq<char>,
}

impl View for CopyStep {
    type V = Copied;

    open spec fn view(&self) -> Copied {
        Copied { origin: self.origin, source: self.source@, destination: self.destination@ }
    }
}

/// The copy steps that a list holds, in its order.
pub open spec fn steps_of(steps: Seq<CopyStep>) -> Seq<Copied> {
    steps.map_values(|step: CopyStep| step@)
}

/// The copy of one file of the output directory under its own name.
pub open spec fn output_copy(filename: Seq<char>) -> Copied {
    Copied { origin: Origin::OutputDirectory, source: filename, destination: filename }
}

/// The copies of the caller's extra source files: each pair names a source
/// file and its place in the exported directory.
pub open spec fn source_copies(files: Seq<(String, String)>) -> Seq<Copied> {
    Seq::new(
        files.len(),
        |i: int| Copied { origin: Origin::SourceTree, source: files[i].0@, destination: files[i].1@ },
    )
}

/// The copies of the libraries' files.
pub open spec fn library_copies(naming: LibraryNaming, libraries: Seq<Seq<char>>) -> Seq<Copied> {
    Seq::new(libraries.len(), |i: int| output_copy(library_filename(naming, libraries[i])))
}

/// The copies of files that keep their names.
pub open spec fn file_copies(files: Seq<Seq<char>>) -> Seq<Copied> {
    Seq::new(files.len(), |i: int| output_copy(files[i]))
}

impl ArtifactManifest {
    /// The copies that bring the manifest's files into the exported
    /// directory: the extra source files first, then the primary libraries,
    /// the auxiliary libraries and the additional files.
    pub open spec fn copies(&self, source_files: Seq<(String, String)>) -> Seq<Copied> {
        source_copies(source_files) + library_copies(
            self.naming,
            names_of(self.primary_libraries@),
        ) + library_copies(self.naming, names_of(self.auxiliary_libraries@)) + file_copies(
            names_of(self.additional_files@),
        )
    }

    /// Lists the copies that bring the manifest's files into the exported
    /// directory.
    pub fn copy_steps(&self, source_files: &[(String, String)]) -> (steps: Vec<CopyStep>)
        ensures
            steps_of(steps@) == self.copies(source_files@),
    {
        let mut steps: Vec<CopyStep> = Vec::new();
        let mut i: usize = 0;
        while i < source_files.len()
            invariant
                i <= source_files@.len(),
                steps_of(steps@) == source_copies(source_files@.take(i as int)),
            decreases source_files@.len() - i,
        {
            let ghost before = steps_of(steps@);
            let step = CopyStep {
                origin: Origin::SourceTree,
                source: source_files[i].0.clone(),
                destination: source_files[i].1.clone(),
            };
            steps.push(step);
            i += 1;
            assert(steps_of(steps@) =~= before.push(step@));
            assert(steps_of(steps@) =~= source_copies(source_files@.take(i as int)));
        }
        assert(source_files@.take(i as int) =~= source_files@);
        push_library_copies(&mut steps, self.naming, &self.primary_libraries);
        push_library_copies(&mut steps, self.naming, &self.auxiliary_libraries);
        let ghost libraries = steps_of(steps@);
        let mut k: usize = 0;
        while k < self.additional_files.len()
            invariant
                k <= self.additional_files@.len(),
                steps_of(steps@) == libraries + file_copies(
                    names_of(self.additional_files@).take(k as int),
                ),
            decreases self.additional_files@.len() - k,
        {
            let ghost before = steps_of(steps@);
            let file = &self.additional_files[k];
            let step = CopyStep {
                origin: Origin::OutputDirectory,
                source: file.clone(),
                destination: file.clone(),
            };
            steps.push(step);
            k += 1;
            assert(steps_of(steps@) =~= before.push(step@));
            assert(steps_of(steps@) =~= libraries + file_copies(
                names_of(self.additional_files@).take(k as int),
            ));
        }
        assert(names_of(self.additional_files@).take(k as int) =~= names_of(
            self.additional_files@,
        ));
        steps
    }
}

/// Everything an export puts below the staging directory.
#[derive(Clone, Debug, PartialEq, Eq)]
pub struct ExportPlan {
    /// Name of the directory to create below the staging directory; it is
    /// no error if it exists already.
    pub directory: String,
    /// Files to write into that directory.
    pub metadata: Vec<MetadataFile>,
    /// Files to copy into that directory, in this order.
    pub copies: Vec<CopyStep>,
}

/// Plans the export of the binaries of one build: the directory named after
/// the archive, the metadata files with the package version `tag` and the
/// key of `identity`, and the copies of the manifest's files and of the
/// caller's `source_files`.
pub fn export_plan(
    identity: &BuildIdentity,
    tag: &str,
    manifest: &ArtifactManifest,
    source_files: &[(String, String)],
) -> (plan: ExportPlan)
    ensures
        plan.directory@ == ARCHIVE_NAME@,
        plan.metadata@.map_values(|file: MetadataFile| file@) == metadata_of(
            tag@,
            key_of(identity@),
        ),
        steps_of(plan.copies@) == manifest.copies(source_files@),
{
    let key = identity.derive_key();
    ExportPlan {
        directory: ARCHIVE_NAME.to_owned(),
        metadata: metadata_files(tag, key.as_str()),
        copies: manifest.copy_steps(source_files),
    }
}

/// Appends the copies of the libraries' files.
fn push_library_copies(steps: &mut Vec<CopyStep>, naming: LibraryNaming, libraries: &Vec<String>)
    ensures
        steps_of(final(steps)@) == steps_of(old(steps)@) + library_copies(
            naming,
            names_of(libraries@),
        ),
{
    let ghost before = steps_of(steps@);
    let mut k: usize = 0;
    assert(steps_of(steps@) =~= before + library_copies(naming, names_of(libraries@).take(0)));
    while k < libraries.len()
        invariant
            k <= libraries@.len(),
            steps_of(steps@) == before + library_copies(
                naming,
                names_of(libraries@).take(k as int),
            ),
        decreases libraries@.len() - k,
    {
        let ghost listed = steps_of(steps@);
        let filename = library_to_filename(naming, libraries[k].as_str());
        let step = CopyStep {
            origin: Origin::OutputDirectory,
            source: filename.clone(),
            destination: filename,
        };
        steps.push(step);
        k += 1;
        assert(steps_of(steps@) =~= listed.push(step@));
        assert(steps_of(steps@) =~= before + library_copies(
            naming,
            names_of(libraries@).take(k as int),
        ));
    }
    assert(names_of(libraries@).take(k as int) =~= names_of(libraries@));
}

} // verus!
