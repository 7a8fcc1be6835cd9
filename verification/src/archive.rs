//! Archive reading and the extraction plan.
//!
//! The archive's central directory and entry payloads are obtained through
//! the `zip` crate, behind trusted wrappers whose contracts speak of
//! `zip_entries_of`, the entry list determined by the archive bytes. The
//! selection of what is written to disk — only safely-named entries inside
//! the bundle container directory — is verified logic: `plan_extraction`
//! turns the entry list into the exact sequence of filesystem actions that
//! `plan_spec` describes, and the lemmas below state the containment
//! properties of that plan.

use vstd::prelude::*;
use crate::ErrorKind;
use crate::pathcheck::entry_name_safe;
use crate::pathcheck::is_safe_entry_name;
use crate::pathcheck::lemma_resolve_concat;
use crate::pathcheck::lemma_safe_name_confined;
use crate::pathcheck::lemma_split_join;
use crate::pathcheck::resolve_segs;
use crate::pathcheck::split_on;
use crate::text::contains_sub;
use crate::text::ends_with_seq;
use crate::text::lemma_contains_after_prepend;
use crate::text::str_ends_with;
use crate::text::str_has_sub;

verus! {

/// The single top-level directory of an application archive that holds the
/// signed bundle; only entries below it are extracted.
pub open spec fn container_marker() -> Seq<char> {
    "Payload"@
}

/// One archive entry as the planner sees it: its raw name, its stored POSIX
/// mode if any, and its payload bytes.
#[derive(Debug, PartialEq)]
pub struct RawEntry {
    pub name: String,
    pub mode: Option<u32>,
    pub data: Vec<u8>,
}

impl View for RawEntry {
    type V = (Seq<char>, Option<u32>, Seq<u8>);

    open spec fn view(&self) -> Self::V {
        (self.name@, self.mode, self.data@)
    }
}

/// One filesystem action of the extraction plan. The driver creates any
/// missing parent directories before writing a file, and applies the mode,
/// where one is given, after creating the directory or file.
#[derive(Debug, PartialEq)]
pub enum FsAction {
    MakeDir { path: String, mode: Option<u32> },
    WriteFile { path: String, mode: Option<u32>, data: Vec<u8> },
}

impl View for FsAction {
    type V = (bool, Seq<char>, Option<u32>, Seq<u8>);

    open spec fn view(&self) -> Self::V {
        match self {
            FsAction::MakeDir { path, mode } => (true, path@, *mode, Seq::<u8>::empty()),
            FsAction::WriteFile { path, mode, data } => (false, path@, *mode, data@),
        }
    }
}

#[verifier::external_type_specification]
#[verifier::external_body]
#[verifier::reject_recursive_types(T)]
pub struct ExCursor<T>(std::io::Cursor<T>);

#[verifier::external_type_specification]
#[verifier::external_body]
#[verifier::reject_recursive_types(R)]
pub struct ExZipArchive<R>(zip::ZipArchive<R>);

/// The entries an opened archive holds: for each, its name, its POSIX mode
/// if stored, and its decompressed bytes, in archive order.
pub uninterp spec fn zip_entries(a: zip::ZipArchive<std::io::Cursor<Vec<u8>>>) -> Seq<
    (Seq<char>, Option<u32>, Seq<u8>),
>;

/// The entry list determined by the bytes of an archive whose central
/// directory is readable.
pub uninterp spec fn zip_entries_of(bytes: Seq<u8>) -> Seq<(Seq<char>, Option<u32>, Seq<u8>)>;

/// The bytes hold a readable central directory: opening them succeeds.
pub uninterp spec fn zip_index_readable(bytes: Seq<u8>) -> bool;

/// The bytes hold a fully readable archive: the central directory parses
/// and every entry's name, mode and payload can be read. A function of the
/// bytes alone.
pub uninterp spec fn zip_wellformed(bytes: Seq<u8>) -> bool;

/// The opened archive's counterpart of `zip_wellformed`: every entry of it
/// can be read.
pub uninterp spec fn zip_archive_wellformed(a: zip::ZipArchive<std::io::Cursor<Vec<u8>>>) -> bool;

/// Relies on zip's `ZipArchive::new`: reads the central directory of the
/// buffer; whether that succeeds, and the entry list it indexes, are
/// functions of the bytes alone.
#[verifier::external_body]
fn zip_open(bytes: Vec<u8>) -> (r: Result<zip::ZipArchive<std::io::Cursor<Vec<u8>>>, ErrorKind>)
    ensures
        r is Ok <==> zip_index_readable(bytes@),
        zip_wellformed(bytes@) ==> r is Ok,
        r matches Ok(a) ==> zip_entries(a) == zip_entries_of(bytes@) && (zip_archive_wellformed(a)
            <==> zip_wellformed(bytes@)),
        r matches Err(e) ==> e == ErrorKind::ArchiveFormat,
{
    match zip::ZipArchive::new(std::io::Cursor::new(bytes)) {
        Ok(a) => Ok(a),
        Err(_) => Err(ErrorKind::ArchiveFormat),
    }
}

/// Relies on zip's `ZipArchive::len`: the number of entries in the index.
#[verifier::external_body]
fn zip_count(a: &zip::ZipArchive<std::io::Cursor<Vec<u8>>>) -> (r: usize)
    ensures
        r == zip_entries(*a).len(),
{
    a.len()
}

/// Relies on zip's `ZipArchive::by_index` and `ZipFile::name`: the stored
/// name of entry `i`.
#[verifier::external_body]
fn zip_entry_name(a: &mut zip::ZipArchive<std::io::Cursor<Vec<u8>>>, i: usize) -> (r: Result<
    String,
    ErrorKind,
>)
    requires
        i < zip_entries(*old(a)).len(),
    ensures
        zip_entries(*final(a)) == zip_entries(*old(a)),
        zip_archive_wellformed(*final(a)) == zip_archive_wellformed(*old(a)),
        zip_archive_wellformed(*old(a)) ==> r is Ok,
        r matches Ok(s) ==> s@ == zip_entries(*old(a))[i as int].0,
        r matches Err(e) ==> e == ErrorKind::Io,
{
    match a.by_index(i) {
        Ok(f) => Ok(f.name().to_owned()),
        Err(_) => Err(ErrorKind::Io),
    }
}

/// Relies on zip's `ZipArchive::by_index` and `ZipFile::unix_mode`: the
/// POSIX mode stored for entry `i`, if any.
#[verifier::external_body]
fn zip_entry_mode(a: &mut zip::ZipArchive<std::io::Cursor<Vec<u8>>>, i: usize) -> (r: Result<
    Option<u32>,
    ErrorKind,
>)
    requires
        i < zip_entries(*old(a)).len(),
    ensures
        zip_entries(*final(a)) == zip_entries(*old(a)),
        zip_archive_wellformed(*final(a)) == zip_archive_wellformed(*old(a)),
        zip_archive_wellformed(*old(a)) ==> r is Ok,
        r matches Ok(m) ==> m == zip_entries(*old(a))[i as int].1,
        r matches Err(e) ==> e == ErrorKind::Io,
{
    match a.by_index(i) {
        Ok(f) => Ok(f.unix_mode()),
        Err(_) => Err(ErrorKind::Io),
    }
}

/// Relies on zip's `ZipArchive::by_index` and std's `Read::read_to_end` on
/// the returned `ZipFile`: the decompressed payload of entry `i`.
#[verifier::external_body]
fn zip_entry_data(a: &mut zip::ZipArchive<std::io::Cursor<Vec<u8>>>, i: usize) -> (r: Result<
    Vec<u8>,
    ErrorKind,
>)
    requires
        i < zip_entries(*old(a)).len(),
    ensures
        zip_entries(*final(a)) == zip_entries(*old(a)),
        zip_archive_wellformed(*final(a)) == zip_archive_wellformed(*old(a)),
        zip_archive_wellformed(*old(a)) ==> r is Ok,
        r matches Ok(d) ==> d@ == zip_entries(*old(a))[i as int].2,
        r matches Err(e) ==> e == ErrorKind::Io,
{
    match a.by_index(i) {
        Ok(mut f) => {
            let mut buf = Vec::new();
            match std::io::Read::read_to_end(&mut f, &mut buf) {
                Ok(_) => Ok(buf),
                Err(_) => Err(ErrorKind::Io),
            }
        },
        Err(_) => Err(ErrorKind::Io),
    }
}

/// Reads the whole entry list of the archive held in `bytes`. A wellformed
/// archive is always read in full; reading fails with an archive-format
/// error exactly when the central directory is unreadable, and with an I/O
/// error when an entry cannot be read.
pub fn read_archive_entries(bytes: Vec<u8>) -> (r: Result<Vec<RawEntry>, ErrorKind>)
    ensures
        zip_wellformed(bytes@) ==> r is Ok,
        r matches Ok(v) ==> v@.map_values(|e: RawEntry| e@) == zip_entries_of(bytes@)
            && zip_index_readable(bytes@),
        r matches Err(e) ==> !zip_wellformed(bytes@) && (e == ErrorKind::ArchiveFormat || e
            == ErrorKind::Io),
        r matches Err(e) ==> (e == ErrorKind::ArchiveFormat <==> !zip_index_readable(bytes@)),
{
    let ghost bs = bytes@;
    let mut a = match zip_open(bytes) {
        Ok(a) => a,
        Err(e) => {
            return Err(e);
        },
    };
    let n = zip_count(&a);
    let mut out: Vec<RawEntry> = Vec::new();
    let mut i: usize = 0;
    while i < n
        invariant
            bs == bytes@,
            i <= n,
            n == zip_entries(a).len(),
            zip_entries(a) == zip_entries_of(bs),
            zip_index_readable(bs),
            zip_archive_wellformed(a) <==> zip_wellformed(bs),
            out@.len() == i,
            forall|k: int| 0 <= k < i ==> (#[trigger] out@[k])@ == zip_entries_of(bs)[k],
        decreases n - i,
    {
        let name = match zip_entry_name(&mut a, i) {
            Ok(s) => s,
            Err(e) => {
                return Err(e);
            },
        };
        let mode = match zip_entry_mode(&mut a, i) {
            Ok(m) => m,
            Err(e) => {
                return Err(e);
            },
        };
        let data = match zip_entry_data(&mut a, i) {
            Ok(d) => d,
            Err(e) => {
                return Err(e);
            },
        };
        out.push(RawEntry { name, mode, data });
        i += 1;
        proof {
            let t = zip_entries_of(bs)[i - 1];
            assert(out@.last()@.0 =~= t.0);
            assert(out@.last()@.1 =~= t.1);
            assert(out@.last()@.2 =~= t.2);
            assert(out@.last()@ =~= t);
        }
    }
    proof {
        assert(out@.map_values(|e: RawEntry| e@) =~~= zip_entries_of(bs));
    }
    Ok(out)
}

/// An entry the extractor writes: safely named and inside the container.
pub open spec fn entry_selected(e: (Seq<char>, Option<u32>, Seq<u8>)) -> bool {
    entry_name_safe(e.0) && contains_sub(e.0, container_marker())
}

/// The filesystem action for a selected entry: a directory when the stored
/// name ends with the separator, otherwise a file with the entry's bytes.
pub open spec fn entry_action(e: (Seq<char>, Option<u32>, Seq<u8>), dest: Seq<char>) -> (
    bool,
    Seq<char>,
    Option<u32>,
    Seq<u8>,
) {
    let path = dest + "/"@ + e.0;
    if e.0.len() > 0 && e.0.last() == '/' {
        (true, path, e.1, Seq::<u8>::empty())
    } else {
        (false, path, e.1, e.2)
    }
}

/// The extraction plan: for each selected entry, in archive order, the one
/// action that writes it under `dest`; unselected entries leave no action.
pub open spec fn plan_spec(entries: Seq<(Seq<char>, Option<u32>, Seq<u8>)>, dest: Seq<char>) -> Seq<
    (bool, Seq<char>, Option<u32>, Seq<u8>),
>
    decreases entries.len(),
{
    if entries.len() == 0 {
        Seq::empty()
    } else {
        plan_spec(entries.drop_last(), dest) + if entry_selected(entries.last()) {
            seq![entry_action(entries.last(), dest)]
        } else {
            Seq::empty()
        }
    }
}

/// Copies a byte vector.
fn clone_bytes(v: &Vec<u8>) -> (r: Vec<u8>)
    ensures
        r@ == v@,
{
    let mut out: Vec<u8> = Vec::new();
    let mut i: usize = 0;
    while i < v.len()
        invariant
            i <= v.len(),
            out@ =~= v@.take(i as int),
        decreases v.len() - i,
    {
        out.push(v[i]);
        proof {
            assert(out@ =~= v@.take(i + 1));
        }
        i += 1;
    }
    proof {
        assert(v@.take(v@.len() as int) =~= v@);
    }
    out
}

/// Computes the extraction plan for the given entries under `dest`, exactly
/// as `plan_spec` describes it.
pub fn plan_extraction(entries: &Vec<RawEntry>, dest: &str) -> (r: Vec<FsAction>)
    ensures
        r@.map_values(|a: FsAction| a@) == plan_spec(
            entries@.map_values(|e: RawEntry| e@),
            dest@,
        ),
{
    let ghost evs = entries@.map_values(|e: RawEntry| e@);
    let mut out: Vec<FsAction> = Vec::new();
    let mut i: usize = 0;
    while i < entries.len()
        invariant
            i <= entries.len(),
            evs == entries@.map_values(|e: RawEntry| e@),
            out@.map_values(|a: FsAction| a@) =~= plan_spec(evs.take(i as int), dest@),
        decreases entries.len() - i,
    {
        let e = &entries[i];
        proof {
            assert(evs.take(i + 1).drop_last() =~= evs.take(i as int));
            assert(evs.take(i + 1).last() == e@);
        }
        let keep = is_safe_entry_name(e.name.as_str()) && str_has_sub(e.name.as_str(), "Payload");
        if keep {
            let path = dest.to_owned().concat("/").concat(e.name.as_str());
            let is_dir = str_ends_with(e.name.as_str(), "/");
            proof {
                reveal_strlit("/");
                assert("/"@ =~= seq!['/']);
                if e.name@.len() > 0 {
                    let tail = e.name@.subrange(e.name@.len() - 1, e.name@.len() as int);
                    assert(tail =~= seq![e.name@.last()]);
                    if e.name@.last() == '/' {
                        assert(tail =~= "/"@);
                    } else {
                        assert(tail[0] != '/');
                        assert(tail != "/"@);
                    }
                }
                assert(ends_with_seq(e.name@, "/"@) == (e.name@.len() > 0 && e.name@.last()
                    == '/'));
            }
            let act = if is_dir {
                FsAction::MakeDir { path, mode: e.mode }
            } else {
                FsAction::WriteFile { path, mode: e.mode, data: clone_bytes(&e.data) }
            };
            proof {
                assert(act@ == entry_action(e@, dest@));
            }
            out.push(act);
        }
        i += 1;
        proof {
            assert(out@.map_values(|a: FsAction| a@) =~= plan_spec(evs.take(i as int), dest@));
        }
    }
    proof {
        assert(evs.take(evs.len() as int) =~= evs);
    }
    out
}

/// Every planned action comes from a selected entry, every selected entry
/// leaves its action in the plan, and every planned path names the container
/// directory. This is the selective-extraction policy, stated of the plan.
pub proof fn lemma_plan_only_container(
    entries: Seq<(Seq<char>, Option<u32>, Seq<u8>)>,
    dest: Seq<char>,
)
    ensures
        forall|k: int|
            0 <= k < plan_spec(entries, dest).len() ==> exists|j: int|
                0 <= j < entries.len() && entry_selected(entries[j]) && #[trigger] plan_spec(
                    entries,
                    dest,
                )[k] == #[trigger] entry_action(entries[j], dest),
        forall|j: int|
            0 <= j < entries.len() && #[trigger] entry_selected(entries[j]) ==> plan_spec(
                entries,
                dest,
            ).contains(entry_action(entries[j], dest)),
        forall|k: int|
            0 <= k < plan_spec(entries, dest).len() ==> contains_sub(
                #[trigger] plan_spec(entries, dest)[k].1,
                container_marker(),
            ),
    decreases entries.len(),
{
    if entries.len() > 0 {
        lemma_plan_only_container(entries.drop_last(), dest);
        let plan = plan_spec(entries, dest);
        let prev = plan_spec(entries.drop_last(), dest);
        let e = entries.last();
        assert forall|k: int| #![trigger plan[k]] 0 <= k < plan.len() implies exists|j: int|
            0 <= j < entries.len() && entry_selected(entries[j]) && plan[k] == #[trigger] entry_action(
                entries[j],
                dest,
            ) by {
            if k < prev.len() {
                let j = choose|j: int|
                    0 <= j < entries.drop_last().len() && entry_selected(entries.drop_last()[j])
                        && prev[k] == entry_action(entries.drop_last()[j], dest);
                assert(entries[j] == entries.drop_last()[j]);
                assert(plan[k] == prev[k]);
            } else {
                assert(entry_selected(e) && plan[k] == entry_action(e, dest));
                assert(entries[entries.len() - 1] == e);
            }
        }
        assert forall|j: int|
            0 <= j < entries.len() && entry_selected(entries[j]) implies plan.contains(
            entry_action(entries[j], dest),
        ) by {
            if j < entries.len() - 1 {
                assert(entries.drop_last()[j] == entries[j]);
                let k = choose|k: int|
                    0 <= k < prev.len() && prev[k] == entry_action(entries[j], dest);
                assert(plan[k] == entry_action(entries[j], dest));
            } else {
                assert(plan[plan.len() - 1] == entry_action(e, dest));
            }
        }
        assert forall|k: int| 0 <= k < plan.len() implies contains_sub(
            #[trigger] plan[k].1,
            container_marker(),
        ) by {
            if k < prev.len() {
                assert(plan[k] == prev[k]);
            } else {
                assert(entry_selected(e));
                lemma_contains_after_prepend(e.0, container_marker(), dest + "/"@);
                assert(plan[k].1 == dest + "/"@ + e.0);
            }
        }
    }
}

/// Traversal containment: when the destination directory resolves to `base`,
/// every planned path resolves, to a path that keeps `base` as a prefix.
/// No planned action touches anything outside the destination directory.
pub proof fn lemma_plan_confined(
    entries: Seq<(Seq<char>, Option<u32>, Seq<u8>)>,
    dest: Seq<char>,
    base: Seq<Seq<char>>,
    k: int,
)
    requires
        0 <= k < plan_spec(entries, dest).len(),
        resolve_segs(split_on(dest, '/'), Seq::empty()) == Some(base),
    ensures
        resolve_segs(split_on(plan_spec(entries, dest)[k].1, '/'), Seq::empty()) matches Some(r)
            && base.is_prefix_of(r),
{
    lemma_plan_only_container(entries, dest);
    let j = choose|j: int|
        0 <= j < entries.len() && entry_selected(entries[j]) && plan_spec(entries, dest)[k]
            == entry_action(entries[j], dest);
    let name = entries[j].0;
    let path = plan_spec(entries, dest)[k].1;
    assert(path == dest + "/"@ + name);
    reveal_strlit("/");
    assert("/"@ =~= seq!['/']);
    assert(path == dest + seq!['/'] + name);
    lemma_split_join(dest, name, '/');
    lemma_resolve_concat(split_on(dest, '/'), split_on(name, '/'), Seq::empty());
    lemma_safe_name_confined(name, base);
    assert(split_on(path, '/') == split_on(dest, '/') + split_on(name, '/'));
}

/// Extension marking an application bundle directory.
pub open spec fn has_app_ext(n: Seq<char>) -> bool {
    n.len() > 4 && ends_with_seq(n, ".app"@)
}

/// The bundle-directory choice among the container's children: the last
/// directory whose name carries the bundle extension, as a scan that keeps
/// overwriting its candidate leaves it.
pub open spec fn app_dir_choice(cs: Seq<(Seq<char>, bool)>) -> Option<Seq<char>>
    decreases cs.len(),
{
    if cs.len() == 0 {
        None
    } else if cs.last().1 && has_app_ext(cs.last().0) {
        Some(cs.last().0)
    } else {
        app_dir_choice(cs.drop_last())
    }
}

/// Picks the application-bundle directory among the children of the
/// container directory: each child given as its name and whether it is a
/// directory. Returns `None` when no child qualifies.
pub fn find_app_dir(children: &Vec<(String, bool)>) -> (r: Option<String>)
    ensures
        match r {
            Some(s) => app_dir_choice(children@.map_values(|c: (String, bool)| (c.0@, c.1)))
                == Some(s@),
            None => app_dir_choice(children@.map_values(|c: (String, bool)| (c.0@, c.1)))
                is None,
        },
{
    let ghost cs = children@.map_values(|c: (String, bool)| (c.0@, c.1));
    let n = children.len();
    proof {
        assert(cs.take(n as int) =~= cs);
    }
    let mut i: usize = n;
    while i > 0
        invariant
            i <= n,
            n == children.len(),
            cs == children@.map_values(|c: (String, bool)| (c.0@, c.1)),
            app_dir_choice(cs) == app_dir_choice(cs.take(i as int)),
        decreases i,
    {
        proof {
            assert(cs.take(i as int).drop_last() =~= cs.take(i - 1));
            assert(cs.take(i as int).last() == cs[i - 1]);
        }
        let is_dir = children[i - 1].1;
        if is_dir && str_ends_with(children[i - 1].0.as_str(), ".app") && children[i
            - 1].0.as_str().unicode_len() > 4 {
            return Some(children[i - 1].0.clone());
        }
        i -= 1;
    }
    proof {
        assert(cs.take(0) =~= Seq::<(Seq<char>, bool)>::empty());
    }
    None
}

} // verus!
