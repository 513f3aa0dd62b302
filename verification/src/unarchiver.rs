//! Reading a zip archive held in memory and planning its extraction.
//!
//! The archive is read with the `zip` crate. What is proved here rests on
//! the contracts of the few functions below that call into it; nothing in
//! this crate writes to the file system.

use std::io::Read;
use vstd::prelude::*;
use crate::text::{chars_of, place_under, placed};

verus! {

/// `std::io::Cursor`: a reader over bytes in memory. Nothing is known of
/// what is inside.
#[verifier::external_type_specification]
#[verifier::external_body]
#[verifier::reject_recursive_types(T)]
pub struct ExCursor<T>(std::io::Cursor<T>);

/// `zip::ZipArchive`: an opened archive. What it holds is spoken of through
/// `entries_of` and `reading_of` alone.
#[verifier::external_type_specification]
#[verifier::external_body]
#[verifier::reject_recursive_types(R)]
pub struct ExZipArchive<R>(zip::ZipArchive<R>);

/// `zip::result::ZipError`: why the `zip` crate refused. It is carried,
/// never looked into.
#[verifier::external_type_specification]
#[verifier::external_body]
pub struct ExZipError(zip::result::ZipError);

/// `zip::read::ZipFile`: one opened entry of an archive. What it holds is
/// spoken of through `header_of` and `reading_at` alone.
#[verifier::external_type_specification]
#[verifier::external_body]
pub struct ExZipFile<'a>(zip::read::ZipFile<'a>);

/// What an archive says of one entry: its name and the size that the
/// central directory declares for its contents.
pub type Header = (Seq<char>, u64);

/// What comes of reading one opened entry: whether the archive reader
/// accepts its name as a path that stays inside, and its contents,
/// decompressed, where they can be read.
pub type Reading = (bool, Option<Seq<u8>>);

/// What `zip::ZipArchive::new` makes of the bytes on a machine whose
/// addresses have `word_bits` bits: the headers of the entries in the order
/// of the central directory, or nothing where it refuses the bytes. The
/// width is part of it because the reader counts the entries in a machine
/// word.
pub uninterp spec fn directory_of(bytes: Seq<u8>, word_bits: nat) -> Option<Seq<Header>>;

/// The headers of the entries of an archive, in the order of its central
/// directory.
pub uninterp spec fn entries_of(archive: zip::ZipArchive<std::io::Cursor<&[u8]>>) -> Seq<Header>;

/// For each entry of an archive, in the same order: nothing where the
/// entry cannot be opened, and else what comes of reading it.
pub uninterp spec fn reading_of(archive: zip::ZipArchive<std::io::Cursor<&[u8]>>) -> Seq<
    Option<Reading>,
>;

/// The header of an opened entry.
pub uninterp spec fn header_of(file: zip::read::ZipFile) -> Header;

/// What comes of reading an opened entry that has not been read yet.
pub uninterp spec fn reading_at(file: zip::read::ZipFile) -> Reading;

/// The width of an address on the machine that runs the code.
pub open spec fn word_bits() -> nat {
    usize::BITS as nat
}

/// `zip::ZipArchive::new` over the bytes: it opens exactly the bytes of
/// which `directory_of` has a directory, and the archive then holds that
/// directory.
#[verifier::external_body]
fn open_archive(bytes: &[u8]) -> (opened: Result<
    zip::ZipArchive<std::io::Cursor<&[u8]>>,
    zip::result::ZipError,
>)
    ensures
        opened is Ok <==> directory_of(bytes@, word_bits()) is Some,
        opened matches Ok(archive) ==> directory_of(bytes@, word_bits()) == Some(
            entries_of(archive),
        ),
{
    zip::ZipArchive::new(std::io::Cursor::new(bytes))
}

/// `zip::ZipArchive::len`: the number of entries of the central directory,
/// which is also the number of entries that `reading_of` speaks of.
#[verifier::external_body]
fn entry_count(archive: &zip::ZipArchive<std::io::Cursor<&[u8]>>) -> (n: usize)
    ensures
        n == entries_of(*archive).len(),
        n == reading_of(*archive).len(),
{
    archive.len()
}

/// `zip::ZipArchive::by_index_decrypt` with the empty password, a refusal
/// of either kind taken as no entry. This call hands every refusal back;
/// `by_index` does not survive an entry that carries the field announcing
/// AES encryption while its flag for encryption is clear. It leaves what
/// the archive holds as it is, opens exactly the entries that `reading_of`
/// has a reading for, and what it opens is the entry at that index.
#[verifier::external_body]
fn entry_at<'a, 'b>(
    archive: &'a mut zip::ZipArchive<std::io::Cursor<&'b [u8]>>,
    index: usize,
) -> (found: Option<zip::read::ZipFile<'a>>)
    ensures
        entries_of(*final(archive)) == entries_of(*old(archive)),
        reading_of(*final(archive)) == reading_of(*old(archive)),
        found is Some <==> index < reading_of(*old(archive)).len() && reading_of(
            *old(archive),
        )[index as int] is Some,
        found matches Some(file) ==> {
            &&& header_of(file) == entries_of(*old(archive))[index as int]
            &&& Some(reading_at(file)) == reading_of(*old(archive))[index as int]
        },
{
    archive.by_index_decrypt(index, &[]).ok().and_then(|opened| opened.ok())
}

/// `zip::read::ZipFile::name`: the name of the entry.
#[verifier::external_body]
fn name_of(file: &zip::read::ZipFile) -> (name: String)
    ensures
        name@ == header_of(*file).0,
{
    file.name().to_string()
}

/// `zip::read::ZipFile::size`: the size that the archive declares for the
/// contents of the entry.
#[verifier::external_body]
fn size_of(file: &zip::read::ZipFile) -> (size: u64)
    ensures
        size == header_of(*file).1,
{
    file.size()
}

/// `zip::read::ZipFile::enclosed_name`: the name of the entry as a path,
/// where the crate judges that the path stays inside the directory that it
/// is joined to. The path, where there is one, is the name itself.
#[verifier::external_body]
fn enclosed_name_of(file: &zip::read::ZipFile) -> (path: Option<String>)
    ensures
        path is Some <==> reading_at(*file).0,
        path matches Some(path) ==> path@ == header_of(*file).0,
{
    file.enclosed_name().and_then(|path| path.to_str()).map(|path| path.to_string())
}

/// `std::io::Read::read_to_end` on an entry that has not been read yet:
/// its contents, decompressed, where the archive yields them.
#[verifier::external_body]
fn read_all(file: &mut zip::read::ZipFile) -> (data: Option<Vec<u8>>)
    ensures
        data is Some <==> reading_at(*old(file)).1 is Some,
        data matches Some(data) ==> reading_at(*old(file)).1 == Some(data@),
{
    let mut data = Vec::new();
    file.read_to_end(&mut data).ok().map(|_| data)
}

/// `Clone::clone` of a `zip::ZipArchive`: a second handle on the same
/// bytes and the same entries.
#[verifier::external_body]
fn share_archive<'a>(archive: &zip::ZipArchive<std::io::Cursor<&'a [u8]>>) -> (shared:
    zip::ZipArchive<std::io::Cursor<&'a [u8]>>)
    ensures
        entries_of(shared) == entries_of(*archive),
        reading_of(shared) == reading_of(*archive),
{
    archive.clone()
}

/// What the piece of a name that is being read looks like so far.
pub enum Piece {
    Empty,
    Dot,
    DotDot,
    Plain,
}

/// Where a walk along a name stands: how many directories below the start,
/// the piece that is being read, and whether the walk ever tried to step
/// above the start.
pub struct Tread {
    pub depth: nat,
    pub piece: Piece,
    pub fell: bool,
}

/// The piece with one more character read.
pub open spec fn grown(piece: Piece, c: char) -> Piece {
    if c == '.' {
        match piece {
            Piece::Empty => Piece::Dot,
            Piece::Dot => Piece::DotDot,
            _ => Piece::Plain,
        }
    } else {
        Piece::Plain
    }
}

/// The walk once the piece that is being read has ended: a plain piece
/// steps down, `..` steps up, and an empty piece or `.` stays. Stepping up
/// from the start is a fall.
pub open spec fn ended(tread: Tread) -> Tread {
    match tread.piece {
        Piece::Empty => tread,
        Piece::Dot => Tread { piece: Piece::Empty, ..tread },
        Piece::DotDot => if tread.depth == 0 {
            Tread { depth: 0, piece: Piece::Empty, fell: true }
        } else {
            Tread { depth: (tread.depth - 1) as nat, piece: Piece::Empty, fell: tread.fell }
        },
        Piece::Plain => Tread { depth: tread.depth + 1, piece: Piece::Empty, fell: tread.fell },
    }
}

/// The walk along a name, piece by piece, where `/` ends a piece.
pub open spec fn walked(name: Seq<char>) -> Tread
    decreases name.len(),
{
    if name.len() == 0 {
        Tread { depth: 0, piece: Piece::Empty, fell: false }
    } else {
        let before = walked(name.drop_last());
        if name.last() == '/' {
            ended(before)
        } else {
            Tread { piece: grown(before.piece, name.last()), ..before }
        }
    }
}

/// A name stays inside the directory that it is joined to: it holds no NUL,
/// does not start at the file system's root, and the walk along it never
/// steps above its start.
pub open spec fn stays_inside(name: Seq<char>) -> bool {
    &&& !name.contains('\0')
    &&& !(name.len() > 0 && name[0] == '/')
    &&& !ended(walked(name)).fell
}

/// A fall is never undone.
pub proof fn lemma_fall_is_final(name: Seq<char>, n: int)
    requires
        0 <= n <= name.len(),
        walked(name.take(n)).fell,
    ensures
        walked(name).fell,
    decreases name.len() - n,
{
    if n < name.len() {
        assert(name.take(n + 1).drop_last() =~= name.take(n));
        lemma_fall_is_final(name, n + 1);
    } else {
        assert(name.take(n) =~= name);
    }
}

/// A name that stays inside is above its start at no point along it: no
/// beginning of the name has stepped above the start, and none does where a
/// piece ends after it.
pub proof fn lemma_inside_all_along(name: Seq<char>, n: int)
    requires
        stays_inside(name),
        0 <= n <= name.len(),
    ensures
        !walked(name.take(n)).fell,
        n == name.len() || name[n] == '/' ==> !ended(walked(name.take(n))).fell,
{
    if walked(name.take(n)).fell {
        lemma_fall_is_final(name, n);
    }
    if n == name.len() {
        assert(name.take(n) =~= name);
    } else if name[n] == '/' {
        assert(name.take(n + 1).drop_last() =~= name.take(n));
        if ended(walked(name.take(n))).fell {
            lemma_fall_is_final(name, n + 1);
        }
    }
}

/// Whether a name stays inside the directory that it is joined to.
pub fn is_enclosed(name: &str) -> (out: bool)
    ensures
        out == stays_inside(name@),
{
    let chars = chars_of(name);
    let mut depth: usize = 0;
    let mut piece = Piece::Empty;
    let mut fell = false;
    let mut nul = false;
    let mut i: usize = 0;
    while i < chars.len()
        invariant
            i <= chars.len(),
            chars@ == name@,
            depth <= i,
            walked(name@.take(i as int)) == (Tread { depth: depth as nat, piece, fell }),
            nul == name@.take(i as int).contains('\0'),
        decreases chars.len() - i,
    {
        let c = chars[i];
        proof {
            let longer = name@.take(i + 1);
            let shorter = name@.take(i as int);
            assert(longer.drop_last() =~= shorter);
            assert(longer.last() == c);
            if shorter.contains('\0') {
                let k = choose|k: int| 0 <= k < shorter.len() && shorter[k] == '\0';
                assert(longer[k] == '\0');
            }
            if longer.contains('\0') && c != '\0' {
                let k = choose|k: int| 0 <= k < longer.len() && longer[k] == '\0';
                assert(shorter[k] == '\0');
            }
        }
        if c == '\0' {
            nul = true;
        }
        if c == '/' {
            match piece {
                Piece::Empty => {},
                Piece::Dot => {},
                Piece::DotDot => {
                    if depth == 0 {
                        fell = true;
                    } else {
                        depth = depth - 1;
                    }
                },
                Piece::Plain => {
                    depth = depth + 1;
                },
            }
            piece = Piece::Empty;
        } else if c == '.' {
            piece =
            match piece {
                Piece::Empty => Piece::Dot,
                Piece::Dot => Piece::DotDot,
                _ => Piece::Plain,
            };
        } else {
            piece = Piece::Plain;
        }
        i = i + 1;
    }
    assert(name@.take(i as int) =~= name@);
    let falls = fell || match piece {
        Piece::DotDot => depth == 0,
        _ => false,
    };
    let rooted = chars.len() > 0 && chars[0] == '/';
    !nul && !rooted && !falls
}

/// A name denotes a directory where it ends in a slash or a backslash.
pub open spec fn names_directory(name: Seq<char>) -> bool {
    name.len() > 0 && (name.last() == '/' || name.last() == '\\')
}

/// The directory that holds a path: the path up to its last `/`, without
/// it. A path without a `/` has the empty directory.
pub open spec fn parent_dir(path: Seq<char>) -> Seq<char>
    decreases path.len(),
{
    if path.len() == 0 {
        Seq::<char>::empty()
    } else if path.last() == '/' {
        path.drop_last()
    } else {
        parent_dir(path.drop_last())
    }
}

/// Whether a name denotes a directory.
pub fn is_directory_name(name: &str) -> (out: bool)
    ensures
        out == names_directory(name@),
{
    let n: usize = name.unicode_len();
    if n == 0 {
        false
    } else {
        let last = name.get_char(n - 1);
        last == '/' || last == '\\'
    }
}

/// The directory that holds a path.
pub fn parent_of(path: &str) -> (out: String)
    ensures
        out@ == parent_dir(path@),
{
    let chars = chars_of(path);
    let mut n: usize = chars.len();
    assert(path@.take(n as int) =~= path@);
    while n > 0 && chars[n - 1] != '/'
        invariant
            n <= chars.len(),
            chars@ == path@,
            parent_dir(path@) == parent_dir(path@.take(n as int)),
        decreases n,
    {
        proof {
            assert(path@.take(n as int).drop_last() =~= path@.take(n - 1));
        }
        n = n - 1;
    }
    proof {
        if n > 0 {
            assert(path@.take(n as int).drop_last() =~= path@.take(n - 1));
            assert(path@.take(n - 1) =~= path@.subrange(0, n - 1));
        }
    }
    if n == 0 {
        String::new()
    } else {
        String::from_str(path.substring_char(0, n - 1))
    }
}

/// Why an archive, or one entry of it, could not be extracted.
#[derive(Debug, Clone, Copy, PartialEq, Eq, Structural)]
pub enum ExtractError {
    /// The bytes are not an archive that can be read.
    MalformedArchive,
    /// The entry cannot be opened, or its contents cannot be read, or they
    /// are not as many bytes as the archive declares.
    UnreadableEntry,
    /// The name of the entry leads outside the directory to extract into.
    UnsafePath,
    /// The entry could not be written.
    WriteFailed,
}

/// What extracting one entry takes.
#[derive(Debug)]
pub enum ExtractStep {
    /// Create the directory, with the directories above it. A directory
    /// that exists already is no failure.
    CreateDir { path: String },
    /// Make sure that `dir` exists, then create the file `path` and write
    /// the contents of entry `index` to it; `size` is the number of bytes
    /// that the archive declares.
    WriteFile { index: usize, dir: String, path: String, size: u64 },
}

/// A step, as mathematics.
pub enum StepModel {
    CreateDir { path: Seq<char> },
    WriteFile { index: usize, dir: Seq<char>, path: Seq<char>, size: u64 },
}

impl View for ExtractStep {
    type V = StepModel;

    open spec fn view(&self) -> StepModel {
        match self {
            ExtractStep::CreateDir { path } => StepModel::CreateDir { path: path@ },
            ExtractStep::WriteFile { index, dir, path, size } => StepModel::WriteFile {
                index: *index,
                dir: dir@,
                path: path@,
                size: *size,
            },
        }
    }
}

/// The step that extracts, below `root`, the entry at `index` with the
/// given name, to the relative path `path`. The empty root is the current
/// directory.
pub open spec fn planned(
    root: Seq<char>,
    index: usize,
    name: Seq<char>,
    path: Seq<char>,
    size: u64,
) -> StepModel {
    if names_directory(name) {
        StepModel::CreateDir { path: placed(root, path) }
    } else {
        StepModel::WriteFile {
            index,
            dir: parent_dir(placed(root, path)),
            path: placed(root, path),
            size,
        }
    }
}

/// The outcome of planning one entry, as mathematics.
pub open spec fn outcome_model(outcome: Result<ExtractStep, ExtractError>) -> Result<
    StepModel,
    ExtractError,
> {
    match outcome {
        Ok(step) => Ok(step@),
        Err(error) => Err(error),
    }
}

/// What planning an entry comes to, from what the archive says of it: its
/// name, the path that the archive reader accepts for the name, if any, and
/// its declared size. An entry without an accepted path, or with one that
/// does not stay inside, is refused.
pub open spec fn step_for(
    root: Seq<char>,
    index: usize,
    name: Seq<char>,
    enclosed: Option<Seq<char>>,
    size: u64,
) -> Result<StepModel, ExtractError> {
    match enclosed {
        Some(path) => if stays_inside(path) {
            Ok(planned(root, index, name, path, size))
        } else {
            Err(ExtractError::UnsafePath)
        },
        None => Err(ExtractError::UnsafePath),
    }
}

/// Plans the extraction of one entry below `root`, from what the archive
/// says of it.
pub fn plan_step(root: &str, index: usize, name: &str, enclosed: Option<&str>, size: u64) -> (out:
    Result<ExtractStep, ExtractError>)
    ensures
        outcome_model(out) == step_for(
            root@,
            index,
            name@,
            match enclosed {
                Some(path) => Some(path@),
                None => None,
            },
            size,
        ),
{
    match enclosed {
        None => Err(ExtractError::UnsafePath),
        Some(path) => {
            if !is_enclosed(path) {
                Err(ExtractError::UnsafePath)
            } else {
                let target = place_under(root, path);
                if is_directory_name(name) {
                    Ok(ExtractStep::CreateDir { path: target })
                } else {
                    let dir = parent_of(target.as_str());
                    Ok(ExtractStep::WriteFile { index, dir, path: target, size })
                }
            }
        },
    }
}

/// What planning the entry at `index` comes to, from its header and from
/// what comes of reading it. An entry that cannot be opened is unreadable;
/// one that opens is planned under its own name where the reader accepts
/// the name and the name stays inside, and else refused as unsafe. The
/// outcome depends on that entry alone.
pub open spec fn outcome_for(
    root: Seq<char>,
    index: usize,
    header: Header,
    reading: Option<Reading>,
) -> Result<StepModel, ExtractError> {
    match reading {
        None => Err(ExtractError::UnreadableEntry),
        Some(reading) => step_for(
            root,
            index,
            header.0,
            if reading.0 {
                Some(header.0)
            } else {
                None
            },
            header.1,
        ),
    }
}

/// Whatever the archive reader says of an entry: where the entry is
/// planned, its name stays inside, and the step writes to that name placed
/// under the root and nowhere else.
pub proof fn lemma_planned_entry_stays_inside(
    root: Seq<char>,
    index: usize,
    header: Header,
    reading: Option<Reading>,
)
    requires
        outcome_for(root, index, header, reading) is Ok,
    ensures
        stays_inside(header.0),
        outcome_for(root, index, header, reading) == Ok::<StepModel, ExtractError>(
            planned(root, index, header.0, header.0, header.1),
        ),
        match planned(root, index, header.0, header.0, header.1) {
            StepModel::CreateDir { path } => path == placed(root, header.0),
            StepModel::WriteFile { index, dir, path, size } => path == placed(root, header.0),
        },
{
}

/// The contents of an entry, where it opens, its contents can be read, and
/// they are as many bytes as its header declares.
pub open spec fn contents_for(header: Header, reading: Option<Reading>) -> Option<Seq<u8>> {
    match reading {
        Some((_, Some(data))) => if data.len() == header.1 {
            Some(data)
        } else {
            None
        },
        _ => None,
    }
}

/// A zip archive in memory.
pub struct Archive<'a> {
    inner: zip::ZipArchive<std::io::Cursor<&'a [u8]>>,
}

impl<'a> Archive<'a> {
    /// The headers of the entries of the archive, in the order of its
    /// central directory.
    pub closed spec fn entries(self) -> Seq<Header> {
        entries_of(self.inner)
    }

    /// For each entry, in the same order: nothing where the entry cannot
    /// be opened, and else what comes of reading it.
    pub closed spec fn reading(self) -> Seq<Option<Reading>> {
        reading_of(self.inner)
    }

    /// Opens the archive that the bytes hold. The bytes go to the archive
    /// reader as they are; which bytes it accepts is the reader's to say, and
    /// `from_opened` says what becomes of either answer.
    pub fn open(bytes: &'a [u8]) -> (out: Result<Archive<'a>, ExtractError>)
        ensures
            out is Ok <==> directory_of(bytes@, word_bits()) is Some,
            out matches Ok(archive) ==> directory_of(bytes@, word_bits()) == Some(
                archive.entries(),
            ),
            out is Err ==> out->Err_0 == ExtractError::MalformedArchive,
    {
        let opened = open_archive(bytes);
        Archive::from_opened(opened)
    }

    /// Takes what the archive reader made of some bytes: an archive that it
    /// opened is kept, with the entries that it holds, and a refusal, for
    /// whatever reason, means that the bytes are malformed.
    pub fn from_opened(
        opened: Result<zip::ZipArchive<std::io::Cursor<&'a [u8]>>, zip::result::ZipError>,
    ) -> (out: Result<Archive<'a>, ExtractError>)
        ensures
            opened is Err ==> out is Err && out->Err_0 == ExtractError::MalformedArchive,
            opened matches Ok(archive) ==> {
                &&& out is Ok
                &&& out->Ok_0.entries() == entries_of(archive)
                &&& out->Ok_0.reading() == reading_of(archive)
            },
    {
        match opened {
            Ok(inner) => Ok(Archive { inner }),
            Err(_) => Err(ExtractError::MalformedArchive),
        }
    }

    /// The number of entries.
    pub fn len(&self) -> (n: usize)
        ensures
            n == self.entries().len(),
            n == self.reading().len(),
    {
        entry_count(&self.inner)
    }

    /// A second handle on the same archive, for reading entries side by
    /// side.
    pub fn share(&self) -> (out: Archive<'a>)
        ensures
            out.entries() == self.entries(),
            out.reading() == self.reading(),
    {
        Archive { inner: share_archive(&self.inner) }
    }

    /// Plans the extraction of the entry at `index` below `root`. Past the
    /// last entry there is nothing to read.
    pub fn plan_entry(&mut self, root: &str, index: usize) -> (out: Result<
        ExtractStep,
        ExtractError,
    >)
        ensures
            final(self).entries() == old(self).entries(),
            final(self).reading() == old(self).reading(),
            index >= old(self).entries().len() ==> out == Err::<ExtractStep, ExtractError>(
                ExtractError::UnreadableEntry,
            ),
            index < old(self).entries().len() ==> outcome_model(out) == outcome_for(
                root@,
                index,
                old(self).entries()[index as int],
                old(self).reading()[index as int],
            ),
    {
        if index >= self.len() {
            return Err(ExtractError::UnreadableEntry);
        }
        match entry_at(&mut self.inner, index) {
            None => Err(ExtractError::UnreadableEntry),
            Some(file) => {
                let name = name_of(&file);
                let size = size_of(&file);
                let enclosed = enclosed_name_of(&file);
                match &enclosed {
                    Some(path) => plan_step(root, index, name.as_str(), Some(path.as_str()), size),
                    None => plan_step(root, index, name.as_str(), None, size),
                }
            },
        }
    }

    /// Reads the contents of the entry at `index`, decompressed. They are
    /// given only where they are as many bytes as the archive declares.
    pub fn read_entry(&mut self, index: usize) -> (out: Result<Vec<u8>, ExtractError>)
        ensures
            final(self).entries() == old(self).entries(),
            final(self).reading() == old(self).reading(),
            out is Err ==> out->Err_0 == ExtractError::UnreadableEntry,
            index >= old(self).entries().len() ==> out is Err,
            index < old(self).entries().len() ==> match contents_for(
                old(self).entries()[index as int],
                old(self).reading()[index as int],
            ) {
                Some(data) => out is Ok && out->Ok_0@ == data,
                None => out is Err,
            },
    {
        if index >= self.len() {
            return Err(ExtractError::UnreadableEntry);
        }
        match entry_at(&mut self.inner, index) {
            None => Err(ExtractError::UnreadableEntry),
            Some(mut file) => {
                let size = size_of(&file);
                match read_all(&mut file) {
                    Some(data) => {
                        if same_count(data.len(), size) {
                            Ok(data)
                        } else {
                            Err(ExtractError::UnreadableEntry)
                        }
                    },
                    None => Err(ExtractError::UnreadableEntry),
                }
            },
        }
    }

    /// Plans the extraction of every entry below `root`: one outcome for
    /// each entry, in the order of the archive, and each of them what that
    /// entry alone comes to. An entry that is refused does not keep the
    /// others from being planned.
    pub fn plan(&mut self, root: &str) -> (out: Vec<Result<ExtractStep, ExtractError>>)
        ensures
            final(self).entries() == old(self).entries(),
            final(self).reading() == old(self).reading(),
            out@.len() == old(self).entries().len(),
            forall|i: int|
                0 <= i < out@.len() ==> outcome_model(#[trigger] out@[i]) == outcome_for(
                    root@,
                    i as usize,
                    old(self).entries()[i],
                    old(self).reading()[i],
                ),
    {
        let n = self.len();
        let mut out: Vec<Result<ExtractStep, ExtractError>> = Vec::new();
        let mut i: usize = 0;
        while i < n
            invariant
                i <= n,
                n == self.entries().len(),
                self.entries() == old(self).entries(),
                self.reading() == old(self).reading(),
                out@.len() == i,
                forall|k: int|
                    0 <= k < i ==> outcome_model(#[trigger] out@[k]) == outcome_for(
                        root@,
                        k as usize,
                        old(self).entries()[k],
                        old(self).reading()[k],
                    ),
            decreases n - i,
        {
            let outcome = self.plan_entry(root, i);
            out.push(outcome);
            i = i + 1;
        }
        out
    }
}

/// Whether a number of bytes is the declared size.
fn same_count(count: usize, size: u64) -> (out: bool)
    ensures
        out == (count == size),
{
    count as u64 == size
}

/// Opens the archive that the bytes hold and plans the extraction of every
/// entry below `root`.
pub fn unzip<'a>(bytes: &'a [u8], root: &str) -> (out: Result<
    (Archive<'a>, Vec<Result<ExtractStep, ExtractError>>),
    ExtractError,
>)
    ensures
        out is Ok <==> directory_of(bytes@, word_bits()) is Some,
        out is Err ==> out->Err_0 == ExtractError::MalformedArchive,
        out matches Ok(opened) ==> {
            &&& directory_of(bytes@, word_bits()) == Some(opened.0.entries())
            &&& opened.1@.len() == opened.0.entries().len()
            &&& forall|i: int|
                0 <= i < opened.1@.len() ==> outcome_model(#[trigger] opened.1@[i]) == outcome_for(
                    root@,
                    i as usize,
                    opened.0.entries()[i],
                    opened.0.reading()[i],
                )
        },
{
    match Archive::open(bytes) {
        Err(error) => Err(error),
        Ok(mut archive) => {
            let steps = archive.plan(root);
            Ok((archive, steps))
        },
    }
}

/// Every entry succeeded.
pub open spec fn all_succeeded(outcomes: Seq<Result<(), ExtractError>>) -> bool {
    forall|i: int| 0 <= i < outcomes.len() ==> (#[trigger] outcomes[i]) is Ok
}

/// The outcome at `i` is the first failure.
pub open spec fn first_failure(outcomes: Seq<Result<(), ExtractError>>, i: int) -> bool {
    &&& 0 <= i < outcomes.len()
    &&& outcomes[i] is Err
    &&& forall|j: int| 0 <= j < i ==> (#[trigger] outcomes[j]) is Ok
}

/// Joins the outcomes of all entries once every one of them has ended:
/// success where every entry succeeded, and else the first failure.
pub fn join_outcomes(outcomes: &Vec<Result<(), ExtractError>>) -> (out: Result<(), ExtractError>)
    ensures
        out is Ok <==> all_succeeded(outcomes@),
        out matches Err(error) ==> exists|i: int|
            first_failure(outcomes@, i) && #[trigger] outcomes@[i] == Err::<(), ExtractError>(
                error,
            ),
{
    let mut i: usize = 0;
    while i < outcomes.len()
        invariant
            i <= outcomes.len(),
            forall|j: int| 0 <= j < i ==> (#[trigger] outcomes@[j]) is Ok,
        decreases outcomes.len() - i,
    {
        match outcomes[i] {
            Ok(_) => {},
            Err(error) => {
                assert(first_failure(outcomes@, i as int));
                return Err(error);
            },
        }
        i = i + 1;
    }
    Ok(())
}

} // verus!
