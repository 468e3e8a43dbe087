//! The manifest of an initialised repository.
//!
//! Setting up a repository records the SHA-256 of every file that it writes. A later
//! update compares three hashes of a file: the recorded one, that of the file as it is
//! now, and that of the file as it would be written, and so tells what the user has
//! changed from what a new version has changed.

use crate::paths;
use crate::paths::join_path;
use crate::text;
use crate::text::{eq_str, own, str_le};
use crate::time::{Moment, STAMP};
use vstd::prelude::*;

verus! {

/// The name of the manifest, without its extension.
pub const MANIFEST_NAME: &'static str = "init-manifest";

/// Where the manifest is, below the configuration directory.
pub fn manifest_path(crosslink_dir: &str) -> (r: String)
    ensures
        r@ == paths::joined(crosslink_dir@, MANIFEST_NAME@) + ".json"@,
{
    let mut path = join_path(crosslink_dir, MANIFEST_NAME);
    path.append(".json");
    path
}

/// Where a new manifest is written before it takes the place of the old one.
pub fn manifest_tmp_path(crosslink_dir: &str) -> (r: String)
    ensures
        r@ == paths::joined(crosslink_dir@, MANIFEST_NAME@) + ".json.tmp"@,
{
    let mut path = join_path(crosslink_dir, MANIFEST_NAME);
    path.append(".json.tmp");
    path
}

// ---------------------------------------------------------------------------
// Hashes
// ---------------------------------------------------------------------------

/// The SHA-256 of a text.
pub uninterp spec fn sha256(content: Seq<char>) -> Seq<u8>;

/// Calls `sha2::Sha256::digest` on the bytes of a text. The 32 bytes that come out
/// depend on the text alone.
#[verifier::external_body]
fn digest(content: &str) -> (r: Vec<u8>)
    ensures
        r@ == sha256(content@),
        r@.len() == 32,
{
    <sha2::Sha256 as sha2::Digest>::digest(content.as_bytes()).to_vec()
}

/// The hexadecimal digit of a number below sixteen.
pub open spec fn hex_digit(n: int) -> char {
    if n < 10 {
        ('0' as int + n) as char
    } else {
        ('a' as int + (n - 10)) as char
    }
}

/// Bytes in hexadecimal digits, two to a byte.
pub open spec fn hex(bytes: Seq<u8>) -> Seq<char>
    decreases bytes.len(),
{
    if bytes.len() == 0 {
        Seq::empty()
    } else {
        hex(bytes.drop_last()).push(hex_digit(bytes.last() as int / 16)).push(
            hex_digit(bytes.last() as int % 16),
        )
    }
}

fn digit_of(n: u8) -> (r: char)
    requires
        n < 16,
    ensures
        r == hex_digit(n as int),
{
    if n < 10 {
        (48u8 + n) as char
    } else {
        (87u8 + n) as char
    }
}

/// Bytes in hexadecimal digits.
pub fn to_hex(bytes: &Vec<u8>) -> (r: String)
    ensures
        r@ == hex(bytes@),
{
    let mut out = String::new();
    let mut i: usize = 0;
    while i < bytes.len()
        invariant
            i <= bytes@.len(),
            out@ == hex(bytes@.take(i as int)),
        decreases bytes@.len() - i,
    {
        let b = bytes[i];
        out.push(digit_of(b / 16));
        out.push(digit_of(b % 16));
        proof {
            let next = bytes@.take(i + 1);
            assert(next.drop_last() =~= bytes@.take(i as int));
            assert(next.last() == b);
        }
        i = i + 1;
    }
    assert(bytes@.take(i as int) =~= bytes@);
    out
}

proof fn lemma_hex_len(bytes: Seq<u8>)
    ensures
        hex(bytes).len() == 2 * bytes.len(),
    decreases bytes.len(),
{
    if bytes.len() > 0 {
        lemma_hex_len(bytes.drop_last());
    }
}

/// The SHA-256 of a text in hexadecimal digits.
pub fn sha256_hex(content: &str) -> (r: String)
    ensures
        r@ == hex(sha256(content@)),
        r@.len() == 64,
{
    let bytes = digest(content);
    proof {
        lemma_hex_len(bytes@);
    }
    to_hex(&bytes)
}

/// What reading a file came to.
pub enum FileRead {
    Missing,
    Unreadable,
    Content(String),
}

/// The hash of a file: none for a file that is missing, and an error for one that
/// cannot be read.
pub fn sha256_file(path: &str, read: &FileRead) -> (r: Result<Option<String>, String>)
    ensures
        match (r, *read) {
            (Ok(None), FileRead::Missing) => true,
            (Ok(Some(hash)), FileRead::Content(content)) => hash@ == hex(sha256(content@)),
            (Err(e), FileRead::Unreadable) => e@ == "Failed to read "@ + path@ + " for hashing"@,
            _ => false,
        },
{
    match read {
        FileRead::Missing => Ok(None),
        FileRead::Content(content) => Ok(Some(sha256_hex(content.as_str()))),
        FileRead::Unreadable => {
            let mut message = own("Failed to read ");
            message.append(path);
            message.append(" for hashing");
            Err(message)
        },
    }
}

// ---------------------------------------------------------------------------
// The manifest
// ---------------------------------------------------------------------------

/// What is recorded of a file.
#[derive(Debug, Clone)]
pub struct ManifestEntry {
    pub sha256: String,
    pub written_by_version: String,
}

/// The model of what is recorded.
#[verifier::ext_equal]
pub struct EntryView {
    pub sha256: Seq<char>,
    pub written_by_version: Seq<char>,
}

impl View for ManifestEntry {
    type V = EntryView;

    open spec fn view(&self) -> EntryView {
        EntryView { sha256: self.sha256@, written_by_version: self.written_by_version@ }
    }
}

/// A file of the manifest.
#[derive(Debug)]
pub struct ManifestFile {
    pub path: String,
    pub entry: ManifestEntry,
}

/// What setting up a repository has written. The files stand in the order of their
/// paths, and each path once.
#[derive(Debug)]
pub struct InitManifest {
    pub crosslink_version: String,
    pub initialized_at: String,
    pub files: Vec<ManifestFile>,
}

/// Whether files stand in the order of their paths, and each path once.
pub open spec fn in_order(files: Seq<ManifestFile>) -> bool {
    forall|i: int, j: int|
        0 <= i < j < files.len() ==> text::lex_le(
            (#[trigger] files[i]).path@,
            (#[trigger] files[j]).path@,
        ) && files[i].path@ != files[j].path@
}

/// What files record, by their paths.
pub open spec fn recorded(files: Seq<ManifestFile>) -> Map<Seq<char>, EntryView>
    decreases files.len(),
{
    if files.len() == 0 {
        Map::empty()
    } else {
        recorded(files.drop_last()).insert(files.last().path@, files.last().entry@)
    }
}

/// What the first `n` of the written files come to: each path with the hash of what
/// was last written to it.
pub open spec fn written(
    files: Seq<(String, String)>,
    version: Seq<char>,
    n: nat,
) -> Map<Seq<char>, EntryView>
    decreases n,
{
    if n == 0 {
        Map::empty()
    } else {
        let (path, content) = files[n - 1];
        written(files, version, (n - 1) as nat).insert(
            path@,
            EntryView { sha256: hex(sha256(content@)), written_by_version: version },
        )
    }
}

proof fn lemma_recorded(files: Seq<ManifestFile>)
    requires
        in_order(files),
    ensures
        forall|i: int|
            0 <= i < files.len() ==> #[trigger] recorded(files).contains_key(files[i].path@)
                && recorded(files)[files[i].path@] == files[i].entry@,
        forall|k: Seq<char>| #[trigger]
            recorded(files).contains_key(k) ==> exists|i: int|
                0 <= i < files.len() && files[i].path@ == k,
    decreases files.len(),
{
    if files.len() > 0 {
        let init = files.drop_last();
        lemma_recorded(init);
        assert forall|i: int| 0 <= i < files.len() implies #[trigger] recorded(files).contains_key(
            files[i].path@,
        ) && recorded(files)[files[i].path@] == files[i].entry@ by {
            if i < init.len() {
                assert(init[i] == files[i]);
                assert(recorded(init).contains_key(init[i].path@));
                assert(files[i].path@ != files[files.len() - 1].path@);
            }
        }
        assert forall|k: Seq<char>| #[trigger] recorded(files).contains_key(k) implies exists|i: int|
            0 <= i < files.len() && files[i].path@ == k by {
            if k == files.last().path@ {
                assert(files[files.len() - 1].path@ == k);
            } else {
                assert(recorded(init).contains_key(k));
                let i = choose|i: int| 0 <= i < init.len() && init[i].path@ == k;
                assert(files[i].path@ == k);
            }
        }
    }
}

/// Records a file, in place of what is recorded of its path.
fn record(files: &mut Vec<ManifestFile>, path: String, entry: ManifestEntry)
    requires
        in_order(old(files)@),
    ensures
        in_order(final(files)@),
        recorded(final(files)@) == recorded(old(files)@).insert(path@, entry@),
{
    let ghost before = files@;
    let mut at: usize = 0;
    while at < files.len() && !str_le(path.as_str(), files[at].path.as_str())
        invariant
            files@ == before,
            in_order(before),
            at <= before.len(),
            forall|i: int|
                0 <= i < at ==> !text::lex_le(path@, (#[trigger] before[i]).path@),
        decreases before.len() - at,
    {
        at = at + 1;
    }
    let file = ManifestFile { path, entry };
    let ghost put = file;
    proof {
        assert forall|i: int| 0 <= i < at implies text::lex_le(
            (#[trigger] before[i]).path@,
            put.path@,
        ) && before[i].path@ != put.path@ by {
            text::lemma_lex_total(before[i].path@, put.path@);
            text::lemma_lex_total(put.path@, put.path@);
        }
    }
    if at < files.len() && eq_str(file.path.as_str(), files[at].path.as_str()) {
        files.set(at, file);
    } else {
        proof {
            assert forall|i: int| at <= i < before.len() implies text::lex_le(
                put.path@,
                (#[trigger] before[i]).path@,
            ) && before[i].path@ != put.path@ by {
                if i > at {
                    text::lemma_lex_transitive(put.path@, before[at as int].path@, before[i].path@);
                    if before[i].path@ == put.path@ {
                        text::lemma_lex_antisymmetric(before[at as int].path@, before[i].path@);
                    }
                }
            }
        }
        files.insert(at, file);
    }
    proof {
        let after = files@;
        assert(in_order(after));
        lemma_recorded(before);
        lemma_recorded(after);
        let a = recorded(after);
        let b = recorded(before).insert(put.path@, put.entry@);
        assert(after[at as int] == put);
        assert(a.contains_key(after[at as int].path@));
        assert forall|k: Seq<char>|
            #![trigger a.dom().contains(k)]
            #![trigger b.dom().contains(k)]
            a.dom().contains(k) == b.dom().contains(k) && (a.dom().contains(k) ==> a[k]
                == b[k]) by {
            if k != put.path@ {
                if a.contains_key(k) {
                    let i = choose|i: int| 0 <= i < after.len() && after[i].path@ == k;
                    let j = if after.len() == before.len() || i < at {
                        i
                    } else {
                        i - 1
                    };
                    assert(after[i] == before[j]);
                    assert(recorded(before).contains_key(before[j].path@));
                    assert(a.contains_key(after[i].path@));
                }
                if recorded(before).contains_key(k) {
                    let j = choose|j: int| 0 <= j < before.len() && before[j].path@ == k;
                    let i = if after.len() == before.len() || j < at {
                        j
                    } else {
                        j + 1
                    };
                    assert(after[i] == before[j]);
                    assert(a.contains_key(after[i].path@));
                    assert(recorded(before).contains_key(before[j].path@));
                }
            }
        }
        assert(a =~= b);
    }
}

/// The manifest of files, each given by its path and what was written to it.
pub fn build_manifest(files: &Vec<(String, String)>, version: &str, now: &Moment) -> (r:
    InitManifest)
    ensures
        r.crosslink_version@ == version@,
        r.initialized_at@ == now.shown(STAMP@),
        in_order(r.files@),
        recorded(r.files@) == written(files@, version@, files@.len()),
{
    let mut entries: Vec<ManifestFile> = Vec::new();
    let mut i: usize = 0;
    while i < files.len()
        invariant
            i <= files@.len(),
            in_order(entries@),
            recorded(entries@) == written(files@, version@, i as nat),
        decreases files@.len() - i,
    {
        let entry = ManifestEntry {
            sha256: sha256_hex(files[i].1.as_str()),
            written_by_version: own(version),
        };
        record(&mut entries, own(files[i].0.as_str()), entry);
        i = i + 1;
    }
    InitManifest { crosslink_version: own(version), initialized_at: now.stamp(), files: entries }
}

// ---------------------------------------------------------------------------
// Updates
// ---------------------------------------------------------------------------

/// What is to be done with a file in an update.
#[derive(Debug, Clone, Copy, PartialEq, Eq, Structural)]
pub enum UpdateAction {
    /// Neither the file nor the template has changed.
    UpToDate,
    /// Only the template has changed.
    AutoUpdate,
    /// Only the file has changed.
    TemplateUnchanged,
    /// Both have changed.
    Conflict,
    /// The file is gone.
    Deleted,
    /// The file is in no manifest.
    NewFile,
}

/// What the three hashes of a file come to.
pub open spec fn classified(
    manifest_hash: Seq<char>,
    current_hash: Option<Seq<char>>,
    new_template_hash: Seq<char>,
) -> UpdateAction {
    match current_hash {
        None => UpdateAction::Deleted,
        Some(current) => if manifest_hash == current {
            if manifest_hash == new_template_hash {
                UpdateAction::UpToDate
            } else {
                UpdateAction::AutoUpdate
            }
        } else if manifest_hash == new_template_hash {
            UpdateAction::TemplateUnchanged
        } else {
            UpdateAction::Conflict
        },
    }
}

/// What the three hashes of a file come to: the recorded one, that of the file as it
/// is, and that of the template.
pub fn classify_update(
    manifest_hash: &str,
    current_hash: Option<&str>,
    new_template_hash: &str,
) -> (r: UpdateAction)
    ensures
        r == classified(manifest_hash@, text::opt_view(current_hash), new_template_hash@),
{
    let current = match current_hash {
        Some(current) => current,
        None => {
            return UpdateAction::Deleted;
        },
    };
    let user_changed = !eq_str(manifest_hash, current);
    let template_changed = !eq_str(manifest_hash, new_template_hash);
    match (user_changed, template_changed) {
        (false, false) => UpdateAction::UpToDate,
        (false, true) => UpdateAction::AutoUpdate,
        (true, false) => UpdateAction::TemplateUnchanged,
        (true, true) => UpdateAction::Conflict,
    }
}

/// A file that the user has changed is never updated on its own.
pub proof fn law_changed_files_are_kept(
    manifest_hash: Seq<char>,
    current: Seq<char>,
    new_template_hash: Seq<char>,
)
    requires
        current != manifest_hash,
    ensures
        classified(manifest_hash, Some(current), new_template_hash) != UpdateAction::AutoUpdate,
{
}

/// Right after the setup, no file has changed and there is nothing to update: the hash
/// that the manifest records of a written file is that of the file and of the template.
pub proof fn law_fresh_files_are_up_to_date(
    files: Seq<(String, String)>,
    version: Seq<char>,
    path: String,
    content: String,
)
    ensures
        ({
            let m = written(files.push((path, content)), version, files.len() + 1);
            m.contains_key(path@) && classified(
                m[path@].sha256,
                Some(hex(sha256(content@))),
                hex(sha256(content@)),
            ) == UpdateAction::UpToDate
        }),
{
}

/// The three hashes tell what has changed: nothing, the file, the template or both; a file that is
/// gone is told apart from all of them.
pub proof fn law_updates_are_told_apart(
    manifest_hash: Seq<char>,
    current: Option<Seq<char>>,
    new_template_hash: Seq<char>,
)
    ensures
        ({
            let action = classified(manifest_hash, current, new_template_hash);
            let kept = current == Some(manifest_hash);
            let same_template = manifest_hash == new_template_hash;
            &&& action == UpdateAction::Deleted <==> current is None
            &&& action == UpdateAction::UpToDate <==> kept && same_template
            &&& action == UpdateAction::AutoUpdate <==> kept && !same_template
            &&& action == UpdateAction::TemplateUnchanged <==> current is Some && !kept
                && same_template
            &&& action == UpdateAction::Conflict <==> current is Some && !kept && !same_template
        }),
{
}

/// Bytes are written with two digits each, and different bytes are written differently.
pub proof fn law_hex_is_told_apart(a: Seq<u8>, b: Seq<u8>)
    ensures
        hex(a).len() == 2 * a.len(),
        hex(a) == hex(b) ==> a == b,
    decreases a.len() + b.len(),
{
    lemma_hex_len(a);
    lemma_hex_len(b);
    if hex(a) == hex(b) {
        assert(a.len() == b.len());
        if a.len() > 0 {
            let x = hex(a);
            let y = hex(b);
            let n = x.len();
            assert(x.drop_last().drop_last() =~= hex(a.drop_last()));
            assert(y.drop_last().drop_last() =~= hex(b.drop_last()));
            law_hex_is_told_apart(a.drop_last(), b.drop_last());
            assert(x[n - 1] == hex_digit(a.last() as int % 16));
            assert(y[n - 1] == hex_digit(b.last() as int % 16));
            assert(x[n - 2] == hex_digit(a.last() as int / 16));
            assert(y[n - 2] == hex_digit(b.last() as int / 16));
            lemma_digits_differ(a.last() as int % 16, b.last() as int % 16);
            lemma_digits_differ(a.last() as int / 16, b.last() as int / 16);
            assert(a.last() == b.last());
            assert(a =~= a.drop_last().push(a.last()));
            assert(b =~= b.drop_last().push(b.last()));
        } else {
            assert(a =~= b);
        }
    }
}

proof fn lemma_digits_differ(m: int, n: int)
    requires
        0 <= m < 16,
        0 <= n < 16,
        hex_digit(m) == hex_digit(n),
    ensures
        m == n,
{
}

/// A file that is there has the hash of what it holds, one that is missing has none, and one that
/// cannot be read is an error that names it.
pub proof fn law_files_are_hashed(path: &str, read: &FileRead, r: Result<Option<String>, String>)
    requires
        call_ensures(sha256_file, (path, read), r),
    ensures
        r is Err <==> *read is Unreadable,
        *read is Missing ==> r == Ok::<Option<String>, String>(None),
        *read matches FileRead::Content(c) ==> (r matches Ok(Some(h)) && h@ == hex(sha256(c@))),
        r matches Err(e) ==> text::contains(e@, "Failed to read "@ + path@),
{
    broadcast use {text::lemma_contains_self, text::lemma_contains_first};

}

/// Every file that was written is recorded, by the hash of what was last written to it and the
/// version that wrote it; nothing else is recorded.
pub proof fn law_written_files_are_recorded(
    files: Seq<(String, String)>,
    version: Seq<char>,
    n: nat,
    k: int,
    path: Seq<char>,
)
    requires
        n <= files.len(),
    ensures
        0 <= k < n ==> written(files, version, n).contains_key(files[k].0@),
        0 <= k < n && (forall|j: int| k < j < n ==> (#[trigger] files[j]).0@ != files[k].0@)
            ==> written(files, version, n)[files[k].0@].sha256 == hex(sha256(files[k].1@)),
        written(files, version, n).contains_key(path) ==> written(
            files,
            version,
            n,
        )[path].written_by_version == version,
        written(files, version, n).contains_key(path) ==> exists|j: int|
            0 <= j < n && (#[trigger] files[j]).0@ == path,
    decreases n,
{
    if n > 0 {
        law_written_files_are_recorded(files, version, (n - 1) as nat, k, path);
        if written(files, version, n).contains_key(path) {
            if files[n - 1].0@ == path {
                assert(files[n - 1].0@ == path);
            } else {
                let j = choose|j: int| 0 <= j < n - 1 && (#[trigger] files[j]).0@ == path;
                assert(files[j].0@ == path);
            }
        }
        if 0 <= k < n - 1 && (forall|j: int| k < j < n ==> (#[trigger] files[j]).0@ != files[k].0@) {
            assert(files[n - 1].0@ != files[k].0@);
        }
    }
}

/// A manifest records what was written, under the version and the time of the setup.
pub proof fn law_manifests_record_the_setup(
    files: &Vec<(String, String)>,
    version: &str,
    now: &Moment,
    r: InitManifest,
)
    requires
        call_ensures(build_manifest, (files, version, now), r),
    ensures
        r.crosslink_version@ == version@,
        r.initialized_at@ == now.shown(STAMP@),
        in_order(r.files@),
        recorded(r.files@) == written(files@, version@, files@.len()),
{
}

} // verus!
