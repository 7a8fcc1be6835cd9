//! The pipeline's decisions, as one verified step function.
//!
//! The pipeline alternates computation with work only a driver can do:
//! file reads and writes, directory listings, and the three external tools.
//! `start` and `next_step` make every decision here — what to extract,
//! which bundle and icon to take, whether a tool succeeded, what the report
//! and the package hold — and hand the driver one `PipeAction` at a time;
//! the driver answers each action with a `PipeEvent` and performs no logic
//! of its own.

use vstd::prelude::*;
use vstd::arithmetic::div_mod::lemma_div_is_ordered;
use crate::ErrorKind;
use crate::archive::FsAction;
use crate::archive::app_dir_choice;
use crate::archive::find_app_dir;
use crate::archive::plan_extraction;
use crate::archive::plan_spec;
use crate::archive::read_archive_entries;
use crate::archive::zip_entries_of;
use crate::archive::zip_index_readable;
use crate::archive::zip_wellformed;
use crate::package::build_package_zip;
use crate::package::build_report;
use crate::package::package_entries;
use crate::package::report_text;
use crate::package::zip_encode;
use vstd::utf8::encode_utf8;
use crate::plist_doc::meta_bundle_id;
use crate::plist_doc::meta_icon_hint;
use crate::plist_doc::meta_name;
use crate::plist_doc::PlistValue;
use crate::plist_doc::read_metadata;
use crate::signing::codesign_marker;
use crate::signing::codesign_succeeded;
use crate::signing::modulus_of_report;
use crate::signing::parse_inspection_report;
use crate::signing::sha1_of_report;
use crate::text::contains_sub;
use crate::text::ends_with_seq;
use crate::text::lex_le;
use crate::text::prefix_before_last;
use crate::text::prefix_before_last_char;
use crate::text::str_ends_with;
use crate::text::str_eq;
use crate::text::str_has_sub;
use crate::text::str_lex_le;
use crate::text::suffix_after_last;
use crate::text::suffix_after_last_char;
use crate::pathcheck::seg_parent;
use crate::pathcheck::seg_skip;

verus! {

/// The record the pipeline produces: the application's name and bundle
/// identifier, its icon as standard base64, the certificate's SHA-1
/// fingerprint and public-key modulus (uppercase hex, colon-free as the
/// inspection tool prints them), and the path of the packaged report.
#[derive(Debug, Clone)]
pub struct IcpResult {
    pub name: String,
    pub bundle_id: String,
    pub icon: String,
    pub sha1: String,
    pub modulus: String,
    pub cache_zip_path: String,
}

/// A finished result as a caller holds it between requests.
pub struct SharedData {
    pub result: IcpResult,
}

/// What the pipeline awaits from the driver.
#[derive(Debug)]
pub enum PipeState {
    /// Awaiting the archive's bytes.
    AwaitArchive { dest: String },
    /// Awaiting the container listing after the plan was applied.
    AwaitExtract { dest: String },
    /// Awaiting the decoded property list of the bundle.
    AwaitPlist { app_path: String },
    /// Awaiting the names of the files directly under the bundle.
    AwaitBundleFiles { app_path: String, name: String, bundle_id: String, icon_hint: String },
    /// Awaiting the normalized icon's bytes.
    AwaitIcon { app_path: String, name: String, bundle_id: String },
    /// Awaiting the certificate-extraction tool's diagnostic output.
    AwaitCodesign {
        app_path: String,
        name: String,
        bundle_id: String,
        icon_b64: String,
        icon_bytes: Option<Vec<u8>>,
    },
    /// Awaiting the certificate-inspection tool's report.
    AwaitOpenssl {
        app_path: String,
        name: String,
        bundle_id: String,
        icon_b64: String,
        icon_bytes: Option<Vec<u8>>,
    },
    /// Awaiting confirmation that the package was written.
    AwaitWrite { result: IcpResult },
    /// The pipeline has delivered its result.
    Done,
    /// The pipeline has failed; no further event is awaited.
    Failed { error: ErrorKind },
}

/// What the driver reports back, answering the last action.
pub enum PipeEvent {
    /// The archive file's bytes.
    ArchiveBytes { bytes: Vec<u8> },
    /// The children of the container directory, each with its name and
    /// whether it is a directory.
    Extracted { children: Vec<(String, bool)> },
    /// The bundle's property list, decoded and converted.
    PlistDoc { doc: PlistValue },
    /// The names of the regular files directly under the bundle.
    BundleFiles { files: Vec<String> },
    /// The icon-normalization tool's run: whether it launched, and the
    /// output file's bytes — `None` when the tool ran but its output file
    /// did not appear.
    IconBytes { launched: bool, data: Option<Vec<u8>> },
    /// The certificate-extraction tool's run: whether it launched, and its
    /// diagnostic output.
    CodesignOutput { launched: bool, diagnostic: String },
    /// The certificate-inspection tool's run: whether it launched, its
    /// report, and its error output.
    OpensslOutput { launched: bool, report: String, errors: String },
    /// The package bytes were written at the requested path.
    PackageWritten,
    /// The requested action failed with this error.
    Failed { error: ErrorKind },
}

/// What the driver must do next.
#[derive(Debug)]
pub enum PipeAction {
    /// Read the file's bytes.
    ReadArchive { path: String },
    /// Delete `purge_dir` recursively if present, recreate it, apply the
    /// actions in order, then list the children of `listing_dir`.
    Extract { purge_dir: String, steps: Vec<FsAction>, listing_dir: String },
    /// Read and decode the property list at this path.
    ReadPlist { path: String },
    /// List the regular files directly under this directory.
    ListBundle { dir: String },
    /// Run the icon-normalization tool in `dir` on `file`; read `output` if
    /// it exists afterwards.
    NormalizeIcon { dir: String, file: String, output: String },
    /// Run the certificate-extraction tool in `dir` against `app`.
    RunCodesign { dir: String, app: String },
    /// Run the certificate-inspection tool on this file.
    RunOpenssl { cert: String },
    /// Write the package bytes at this path.
    WritePackage { path: String, bytes: Vec<u8> },
    /// The pipeline is complete; here is its result.
    Finish { result: IcpResult },
    /// The pipeline failed; abort.
    Fail { error: ErrorKind },
}

/// An icon candidate: a file name that contains the hint and carries the
/// image extension.
pub open spec fn png_candidate(f: Seq<char>, hint: Seq<char>) -> bool {
    contains_sub(f, hint) && f.len() > 4 && ends_with_seq(f, ".png"@)
}

/// An exact candidate: the hint itself with the image extension.
pub open spec fn exact_icon(f: Seq<char>, hint: Seq<char>) -> bool {
    f == hint + ".png"@
}

/// The lexicographically least candidate in `fs`, restricted to exact
/// candidates when `exact_only` holds.
pub open spec fn best_candidate(fs: Seq<Seq<char>>, hint: Seq<char>, exact_only: bool) -> Option<
    Seq<char>,
>
    decreases fs.len(),
{
    if fs.len() == 0 {
        None
    } else {
        let rest = best_candidate(fs.drop_last(), hint, exact_only);
        let f = fs.last();
        if png_candidate(f, hint) && (!exact_only || exact_icon(f, hint)) {
            match rest {
                None => Some(f),
                Some(b) => if lex_le(b, f) {
                    Some(b)
                } else {
                    Some(f)
                },
            }
        } else {
            rest
        }
    }
}

/// The icon the resolver takes: the least exact candidate when one exists,
/// else the least candidate, else none. Deterministic in the listing's
/// contents, whatever order the driver hands it in.
pub open spec fn icon_choice(fs: Seq<Seq<char>>, hint: Seq<char>) -> Option<Seq<char>> {
    match best_candidate(fs, hint, true) {
        Some(e) => Some(e),
        None => best_candidate(fs, hint, false),
    }
}

/// Scans the candidates once, keeping the least exact and the least overall.
fn scan_candidates(files: &Vec<String>, hint: &str, exact_only: bool) -> (r: Option<String>)
    ensures
        match r {
            Some(s) => best_candidate(
                files@.map_values(|x: String| x@),
                hint@,
                exact_only,
            ) == Some(s@),
            None => best_candidate(files@.map_values(|x: String| x@), hint@, exact_only) is None,
        },
{
    let ghost fs = files@.map_values(|x: String| x@);
    let mut best: Option<String> = None;
    let mut i: usize = 0;
    proof {
        assert(fs.take(0) =~= Seq::<Seq<char>>::empty());
    }
    while i < files.len()
        invariant
            i <= files.len(),
            fs == files@.map_values(|x: String| x@),
            match best {
                Some(b) => best_candidate(fs.take(i as int), hint@, exact_only) == Some(b@),
                None => best_candidate(fs.take(i as int), hint@, exact_only) is None,
            },
        decreases files.len() - i,
    {
        proof {
            assert(fs.take(i + 1).drop_last() =~= fs.take(i as int));
            assert(fs.take(i + 1).last() == files@[i as int]@);
        }
        let f = &files[i];
        let mut is_cand = str_has_sub(f.as_str(), hint) && f.as_str().unicode_len() > 4
            && str_ends_with(f.as_str(), ".png");
        if is_cand && exact_only {
            let want = hint.to_owned().concat(".png");
            is_cand = str_eq(f.as_str(), want.as_str());
            proof {
                if f@ == hint@ + ".png"@ {
                    assert(exact_icon(f@, hint@));
                } else {
                    assert(!exact_icon(f@, hint@));
                }
            }
        }
        if is_cand {
            match &best {
                None => {
                    best = Some(f.clone());
                },
                Some(b) => {
                    if !str_lex_le(b.as_str(), f.as_str()) {
                        best = Some(f.clone());
                    }
                },
            }
        }
        i += 1;
    }
    proof {
        assert(fs.take(files@.len() as int) =~= fs);
    }
    best
}

/// Selects the icon file among the bundle's files, as `icon_choice`
/// describes: an exact match is preferred over a substring match, ties go
/// to the lexicographically least name.
pub fn select_icon(files: &Vec<String>, hint: &str) -> (r: Option<String>)
    ensures
        match r {
            Some(s) => icon_choice(files@.map_values(|x: String| x@), hint@) == Some(s@),
            None => icon_choice(files@.map_values(|x: String| x@), hint@) is None,
        },
{
    match scan_candidates(files, hint, true) {
        Some(s) => Some(s),
        None => scan_candidates(files, hint, false),
    }
}

/// The base64 text of a byte sequence, standard alphabet with padding.
pub uninterp spec fn base64_of(bytes: Seq<u8>) -> Seq<char>;

/// The largest byte count the base64 encoding accepts: beyond it the
/// encoded length would overflow `usize`, so encoding is skipped and the
/// icon treated as unresolved.
pub const ICON_BYTES_MAX: usize = usize::MAX / 4 * 3 - 2;

proof fn lemma_b64_len_fits(n: int)
    requires
        0 <= n <= usize::MAX / 4 * 3 - 2,
    ensures
        ((n + 2) / 3) * 4 <= usize::MAX,
{
    let q = usize::MAX as int / 4;
    lemma_div_is_ordered(n + 2, 3 * q, 3);
    vstd::arithmetic::div_mod::lemma_div_multiples_vanish(q, 3);
    assert((n + 2) / 3 <= q);
    vstd::arithmetic::div_mod::lemma_fundamental_div_mod(usize::MAX as int, 4);
    assert(4 * q <= usize::MAX);
}

/// Relies on base64's `Engine::encode` with the standard-alphabet engine:
/// deterministic in the bytes alone; with padding, four output characters
/// for every started group of three input bytes.
#[verifier::external_body]
fn b64_encode(data: &Vec<u8>) -> (r: String)
    requires
        ((data@.len() + 2) / 3) * 4 <= usize::MAX,
    ensures
        r@ == base64_of(data@),
        r@.len() == ((data@.len() + 2) / 3) * 4,
{
    base64::Engine::encode(&base64::engine::general_purpose::STANDARD, data)
}

/// Begins a run: derives the working directory for this archive under the
/// cache directory, named after the archive file. A path whose final
/// component is empty, the current-directory marker or the parent-directory
/// marker names no archive file: it fails at once, before anything could be
/// purged — the derived directory would otherwise be the cache directory
/// itself or its parent.
pub fn start(ipa_path: &str, cache_path: &str) -> (r: (PipeState, PipeAction))
    ensures
        seg_skip(suffix_after_last(ipa_path@, '/')) || seg_parent(
            suffix_after_last(ipa_path@, '/'),
        ) ==> ({
            &&& r.0 matches PipeState::Failed { error } && error == ErrorKind::PathResolution
            &&& r.1 matches PipeAction::Fail { error: e2 } && e2 == ErrorKind::PathResolution
        }),
        !(seg_skip(suffix_after_last(ipa_path@, '/')) || seg_parent(
            suffix_after_last(ipa_path@, '/'),
        )) ==> ({
            &&& r.0 matches PipeState::AwaitArchive { dest } && dest@ == cache_path@ + "/"@
                + suffix_after_last(ipa_path@, '/')
            &&& r.1 matches PipeAction::ReadArchive { path } && path@ == ipa_path@
        }),
{
    let file_name = suffix_after_last_char(ipa_path, '/');
    proof {
        reveal_strlit(".");
        reveal_strlit("..");
        assert("."@ =~= seq!['.']);
        assert(".."@ =~= seq!['.', '.']);
    }
    if file_name.as_str().unicode_len() == 0 || str_eq(file_name.as_str(), ".") || str_eq(
        file_name.as_str(),
        "..",
    ) {
        return (
            PipeState::Failed { error: ErrorKind::PathResolution },
            PipeAction::Fail { error: ErrorKind::PathResolution },
        );
    }
    let dest = cache_path.to_owned().concat("/").concat(file_name.as_str());
    (PipeState::AwaitArchive { dest }, PipeAction::ReadArchive { path: ipa_path.to_owned() })
}

/// The failed state together with the abort action, both carrying `e`.
fn failure_pair(e: ErrorKind) -> (r: (PipeState, PipeAction))
    ensures
        r.0 matches PipeState::Failed { error } && error == e,
        r.1 matches PipeAction::Fail { error } && error == e,
{
    (PipeState::Failed { error: e }, PipeAction::Fail { error: e })
}

/// One step of the pipeline: consumes the awaited event and decides the
/// next action. A failure event, and every failure a decision finds, moves
/// to the failed state with the same error in the abort action; an event
/// that the state does not await is a driver error.
pub fn next_step(st: PipeState, ev: PipeEvent) -> (r: (PipeState, PipeAction))
    ensures
        ev matches PipeEvent::Failed { error } ==> ({
            &&& r.0 matches PipeState::Failed { error: e1 } && e1 == error
            &&& r.1 matches PipeAction::Fail { error: e2 } && e2 == error
        }),
        st matches PipeState::AwaitArchive { dest } ==> ev matches PipeEvent::ArchiveBytes {
            bytes,
        } ==> (match r.1 {
            PipeAction::Extract { purge_dir, steps, listing_dir } => {
                &&& zip_index_readable(bytes@)
                &&& purge_dir@ == dest@
                &&& listing_dir@ == dest@ + "/Payload"@
                &&& steps@.map_values(|a: FsAction| a@) == plan_spec(zip_entries_of(bytes@), dest@)
                &&& r.0 matches PipeState::AwaitExtract { dest: d2 } && d2@ == dest@
            },
            PipeAction::Fail { error } => {
                &&& !zip_wellformed(bytes@)
                &&& (error == ErrorKind::ArchiveFormat || error == ErrorKind::Io)
                &&& r.0 matches PipeState::Failed { error: e2 } && e2 == error
            },
            _ => false,
        }),
        st matches PipeState::AwaitExtract { dest } ==> ev matches PipeEvent::Extracted {
            children,
        } ==> (match app_dir_choice(children@.map_values(|c: (String, bool)| (c.0@, c.1))) {
            Option::None => {
                &&& r.0 matches PipeState::Failed { error } && error == ErrorKind::PathResolution
                &&& r.1 matches PipeAction::Fail { error: e2 } && e2 == ErrorKind::PathResolution
            },
            Option::Some(nm) => {
                &&& r.0 matches PipeState::AwaitPlist { app_path } && app_path@ == dest@
                    + "/Payload/"@ + nm
                &&& r.1 matches PipeAction::ReadPlist { path } && path@ == dest@ + "/Payload/"@ + nm
                    + "/Info.plist"@
            },
        }),
        st matches PipeState::AwaitPlist { app_path } ==> ev matches PipeEvent::PlistDoc { doc }
            ==> ({
            &&& r.0 matches PipeState::AwaitBundleFiles { app_path: a2, name, bundle_id, icon_hint }
                && a2@ == app_path@ && name@ == meta_name(doc) && bundle_id@ == meta_bundle_id(doc)
                && icon_hint@ == meta_icon_hint(doc)
            &&& r.1 matches PipeAction::ListBundle { dir } && dir@ == app_path@
        }),
        st matches PipeState::AwaitBundleFiles { app_path, name, bundle_id, icon_hint } ==> ev
            matches PipeEvent::BundleFiles { files } ==> (match icon_choice(
            files@.map_values(|x: String| x@),
            icon_hint@,
        ) {
            Option::None => {
                &&& r.0 matches PipeState::AwaitCodesign {
                    app_path: a2,
                    name: n2,
                    bundle_id: b2,
                    icon_b64,
                    icon_bytes,
                } && a2@ == app_path@ && n2@ == name@ && b2@ == bundle_id@ && icon_b64@.len() == 0
                    && icon_bytes is None
                &&& r.1 matches PipeAction::RunCodesign { dir, app } && dir@ == prefix_before_last(
                    app_path@,
                    '/',
                ) && app@ == app_path@
            },
            Option::Some(f) => {
                &&& r.0 matches PipeState::AwaitIcon { app_path: a2, name: n2, bundle_id: b2 }
                    && a2@ == app_path@ && n2@ == name@ && b2@ == bundle_id@
                &&& r.1 matches PipeAction::NormalizeIcon { dir, file, output } && file@
                    == app_path@ + "/"@ + f && dir@ == prefix_before_last(app_path@ + "/"@ + f, '/')
                    && output@ == prefix_before_last(app_path@ + "/"@ + f, '/') + "/-d/"@
                    + suffix_after_last(app_path@ + "/"@ + f, '/')
            },
        }),
        st matches PipeState::AwaitIcon { app_path, name, bundle_id } ==> ev matches
            PipeEvent::IconBytes { launched, data } ==> ({
            &&& !launched ==> ({
                &&& r.0 matches PipeState::Failed { error } && error == ErrorKind::ToolLaunch
                &&& r.1 matches PipeAction::Fail { error: e2 } && e2 == ErrorKind::ToolLaunch
            })
            &&& launched ==> ({
                &&& r.0 matches PipeState::AwaitCodesign {
                    app_path: a2,
                    name: n2,
                    bundle_id: b2,
                    icon_b64,
                    icon_bytes,
                } && a2@ == app_path@ && n2@ == name@ && b2@ == bundle_id@ && (match data {
                    Option::Some(b) => if b@.len() <= ICON_BYTES_MAX {
                        icon_b64@ == base64_of(b@) && icon_bytes == Some(b)
                    } else {
                        icon_b64@.len() == 0 && icon_bytes is None
                    },
                    Option::None => icon_b64@.len() == 0 && icon_bytes is None,
                })
                &&& r.1 matches PipeAction::RunCodesign { dir, app } && dir@ == prefix_before_last(
                    app_path@,
                    '/',
                ) && app@ == app_path@
            })
        }),
        st matches PipeState::AwaitCodesign { app_path, name, bundle_id, icon_b64, icon_bytes }
            ==> ev matches PipeEvent::CodesignOutput { launched, diagnostic } ==> ({
            &&& !launched ==> ({
                &&& r.0 matches PipeState::Failed { error } && error == ErrorKind::ToolLaunch
                &&& r.1 matches PipeAction::Fail { error: e2 } && e2 == ErrorKind::ToolLaunch
            })
            &&& launched && !contains_sub(diagnostic@, codesign_marker()) ==> ({
                &&& r.0 matches PipeState::Failed { error } && error == ErrorKind::ToolFailed
                &&& r.1 matches PipeAction::Fail { error: e2 } && e2 == ErrorKind::ToolFailed
            })
            &&& launched && contains_sub(diagnostic@, codesign_marker()) ==> ({
                &&& r.0 matches PipeState::AwaitOpenssl {
                    app_path: a2,
                    name: n2,
                    bundle_id: b2,
                    icon_b64: i2,
                    icon_bytes: ib2,
                } && a2@ == app_path@ && n2@ == name@ && b2@ == bundle_id@ && i2@ == icon_b64@
                    && ib2 == icon_bytes
                &&& r.1 matches PipeAction::RunOpenssl { cert } && cert@ == prefix_before_last(
                    app_path@,
                    '/',
                ) + "/codesign0"@
            })
        }),
        st matches PipeState::AwaitOpenssl { app_path, name, bundle_id, icon_b64, icon_bytes }
            ==> ev matches PipeEvent::OpensslOutput { launched, report, errors } ==> ({
            &&& !launched ==> ({
                &&& r.0 matches PipeState::Failed { error } && error == ErrorKind::ToolLaunch
                &&& r.1 matches PipeAction::Fail { error: e2 } && e2 == ErrorKind::ToolLaunch
            })
            &&& launched && errors@.len() > 0 ==> ({
                &&& r.0 matches PipeState::Failed { error } && error == ErrorKind::ToolFailed
                &&& r.1 matches PipeAction::Fail { error: e2 } && e2 == ErrorKind::ToolFailed
            })
            &&& launched && errors@.len() == 0 && icon_bytes is None ==> ({
                &&& r.0 matches PipeState::Failed { error } && error == ErrorKind::Io
                &&& r.1 matches PipeAction::Fail { error: e2 } && e2 == ErrorKind::Io
            })
            &&& (launched && errors@.len() == 0) ==> (icon_bytes matches Some(icon) ==> ({
                let text = report_text(
                    name@,
                    bundle_id@,
                    sha1_of_report(report@),
                    modulus_of_report(report@),
                );
                let fits = encode_utf8(text).len() <= 0xFFFF_FFFF && icon@.len() <= 0xFFFF_FFFF;
                &&& fits ==> (match r.1 {
                    PipeAction::WritePackage { path, bytes } => {
                        &&& path@ == app_path@ + "/"@ + name@ + "备案材料iOS"@
                        &&& bytes@ == zip_encode(
                            package_entries(name@ + "备案材料iOS"@, text, icon@),
                        )
                        &&& r.0 matches PipeState::AwaitWrite { result } && result.name@ == name@
                            && result.bundle_id@ == bundle_id@ && result.icon@ == icon_b64@
                            && result.sha1@ == sha1_of_report(report@) && result.modulus@
                            == modulus_of_report(report@) && result.cache_zip_path@ == app_path@
                            + "/"@ + name@ + "备案材料iOS"@
                    },
                    _ => false,
                })
                &&& !fits ==> ({
                    &&& r.0 matches PipeState::Failed { error } && error == ErrorKind::Io
                    &&& r.1 matches PipeAction::Fail { error: e2 } && e2 == ErrorKind::Io
                })
            }))
        }),
        st matches PipeState::AwaitWrite { result } ==> ev matches PipeEvent::PackageWritten
            ==> ({
            &&& r.0 matches PipeState::Done
            &&& r.1 matches PipeAction::Finish { result: r2 } && r2 == result
        }),
{
    match (st, ev) {
        (_, PipeEvent::Failed { error }) => failure_pair(error),
        (PipeState::AwaitArchive { dest }, PipeEvent::ArchiveBytes { bytes }) => {
            let entries = match read_archive_entries(bytes) {
                Ok(v) => v,
                Err(e) => {
                    return failure_pair(e);
                },
            };
            let steps = plan_extraction(&entries, dest.as_str());
            let listing_dir = dest.clone().concat("/Payload");
            let purge_dir = dest.clone();
            (PipeState::AwaitExtract { dest }, PipeAction::Extract { purge_dir, steps, listing_dir })
        },
        (PipeState::AwaitExtract { dest }, PipeEvent::Extracted { children }) => {
            match find_app_dir(&children) {
                Some(nm) => {
                    let app_path = dest.clone().concat("/Payload/").concat(nm.as_str());
                    let path = app_path.clone().concat("/Info.plist");
                    (PipeState::AwaitPlist { app_path }, PipeAction::ReadPlist { path })
                },
                None => failure_pair(ErrorKind::PathResolution),
            }
        },
        (PipeState::AwaitPlist { app_path }, PipeEvent::PlistDoc { doc }) => {
            let meta = read_metadata(&doc);
            let dir = app_path.clone();
            (
                PipeState::AwaitBundleFiles {
                    app_path,
                    name: meta.0,
                    bundle_id: meta.1,
                    icon_hint: meta.2,
                },
                PipeAction::ListBundle { dir },
            )
        },
        (
            PipeState::AwaitBundleFiles { app_path, name, bundle_id, icon_hint },
            PipeEvent::BundleFiles { files },
        ) => {
            match select_icon(&files, icon_hint.as_str()) {
                Some(f) => {
                    let file = app_path.clone().concat("/").concat(f.as_str());
                    let dir = prefix_before_last_char(file.as_str(), '/');
                    let base = suffix_after_last_char(file.as_str(), '/');
                    let output = dir.clone().concat("/-d/").concat(base.as_str());
                    (
                        PipeState::AwaitIcon { app_path, name, bundle_id },
                        PipeAction::NormalizeIcon { dir, file, output },
                    )
                },
                None => {
                    let dir = prefix_before_last_char(app_path.as_str(), '/');
                    let app = app_path.clone();
                    (
                        PipeState::AwaitCodesign {
                            app_path,
                            name,
                            bundle_id,
                            icon_b64: String::new(),
                            icon_bytes: None,
                        },
                        PipeAction::RunCodesign { dir, app },
                    )
                },
            }
        },
        (
            PipeState::AwaitIcon { app_path, name, bundle_id },
            PipeEvent::IconBytes { launched, data },
        ) => {
            if !launched {
                return failure_pair(ErrorKind::ToolLaunch);
            }
            let enc: (String, Option<Vec<u8>>) = match data {
                Some(b) => {
                    if b.len() <= ICON_BYTES_MAX {
                        proof {
                            lemma_b64_len_fits(b@.len() as int);
                        }
                        let s = b64_encode(&b);
                        (s, Some(b))
                    } else {
                        (String::new(), None)
                    }
                },
                None => (String::new(), None),
            };
            let dir = prefix_before_last_char(app_path.as_str(), '/');
            let app = app_path.clone();
            (
                PipeState::AwaitCodesign {
                    app_path,
                    name,
                    bundle_id,
                    icon_b64: enc.0,
                    icon_bytes: enc.1,
                },
                PipeAction::RunCodesign { dir, app },
            )
        },
        (
            PipeState::AwaitCodesign { app_path, name, bundle_id, icon_b64, icon_bytes },
            PipeEvent::CodesignOutput { launched, diagnostic },
        ) => {
            if !launched {
                return failure_pair(ErrorKind::ToolLaunch);
            }
            if !codesign_succeeded(diagnostic.as_str()) {
                return failure_pair(ErrorKind::ToolFailed);
            }
            let cert = prefix_before_last_char(app_path.as_str(), '/').concat("/codesign0");
            (
                PipeState::AwaitOpenssl { app_path, name, bundle_id, icon_b64, icon_bytes },
                PipeAction::RunOpenssl { cert },
            )
        },
        (
            PipeState::AwaitOpenssl { app_path, name, bundle_id, icon_b64, icon_bytes },
            PipeEvent::OpensslOutput { launched, report, errors },
        ) => {
            if !launched {
                return failure_pair(ErrorKind::ToolLaunch);
            }
            if errors.as_str().unicode_len() > 0 {
                return failure_pair(ErrorKind::ToolFailed);
            }
            let icon = match icon_bytes {
                Some(b) => b,
                None => {
                    return failure_pair(ErrorKind::Io);
                },
            };
            let parsed = parse_inspection_report(report.as_str());
            let pkg = name.clone().concat("备案材料iOS");
            proof {
                reveal_strlit("备案材料iOS");
                assert(pkg@.last() == "备案材料iOS"@.last());
                assert(pkg@.last() != '/' && pkg@.last() != '\\');
            }
            let text = build_report(
                name.as_str(),
                bundle_id.as_str(),
                parsed.0.as_str(),
                parsed.1.as_str(),
            );
            let text_bytes_len = text.as_str().as_bytes().len();
            if !(text_bytes_len <= 0xFFFF_FFFF && icon.len() <= 0xFFFF_FFFF) {
                return failure_pair(ErrorKind::Io);
            }
            let bytes = match build_package_zip(pkg.as_str(), text.as_str(), &icon) {
                Ok(b) => b,
                Err(e) => {
                    return failure_pair(e);
                },
            };
            let path = app_path.clone().concat("/").concat(pkg.as_str());
            proof {
                assert(path@ =~= app_path@ + "/"@ + name@ + "备案材料iOS"@);
            }
            let result = IcpResult {
                name,
                bundle_id,
                icon: icon_b64,
                sha1: parsed.0,
                modulus: parsed.1,
                cache_zip_path: path.clone(),
            };
            (PipeState::AwaitWrite { result }, PipeAction::WritePackage { path, bytes })
        },
        (PipeState::AwaitWrite { result }, PipeEvent::PackageWritten) => {
            (PipeState::Done, PipeAction::Finish { result })
        },
        _ => failure_pair(ErrorKind::Protocol),
    }
}

} // verus!
