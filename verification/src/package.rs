//! The report text and the packaged artifact.
//!
//! The report is a fixed four-line template filled with the derived values.
//! Packaging builds, in memory, a fresh ZIP holding one directory entry, the
//! report as a text file and the icon bytes, all stored uncompressed with
//! fixed permissions; `package_entries` is exactly that entry list, and the
//! writer's bytes are `zip_encode` of it. The driver only puts the returned
//! bytes on disk.

use vstd::prelude::*;
use vstd::utf8::encode_utf8;
use crate::ErrorKind;

verus! {

/// The report: application name, bundle identifier, certificate fingerprint
/// and public-key modulus, each under its fixed label, blank-line separated.
pub open spec fn report_text(
    name: Seq<char>,
    bundle_id: Seq<char>,
    sha1: Seq<char>,
    modulus: Seq<char>,
) -> Seq<char> {
    "APP名称："@ + name + "\n\nBundle Id："@ + bundle_id + "\n\n证书MD5指纹(签名MD5值、SHA-1)："@
        + sha1 + "\n\nModulus(公钥)："@ + modulus
}

/// Builds the report string, exactly as `report_text` lays it out.
pub fn build_report(name: &str, bundle_id: &str, sha1: &str, modulus: &str) -> (r: String)
    ensures
        r@ == report_text(name@, bundle_id@, sha1@, modulus@),
{
    String::from_str("APP名称：").concat(name).concat("\n\nBundle Id：").concat(
        bundle_id,
    ).concat("\n\n证书MD5指纹(签名MD5值、SHA-1)：").concat(sha1).concat(
        "\n\nModulus(公钥)：",
    ).concat(modulus)
}

/// Holds the `zip` crate's in-memory archive writer. Its struct bounds keep
/// it from being declared to the verifier directly, so it lives opaque in
/// this one field, reached only through the trusted wrappers below.
#[verifier::external_body]
pub struct PkgWriter {
    inner: zip::ZipWriter<std::io::Cursor<Vec<u8>>>,
}

/// The entries recorded so far by a ZIP writer: for each, its stored name,
/// the permission bits it was requested with (`None` for the writer's
/// defaults), and its payload bytes.
pub uninterp spec fn built_entries(w: PkgWriter) -> Seq<(Seq<char>, Option<u32>, Seq<u8>)>;

/// The archive bytes the writer produces for a given entry list, under this
/// module's fixed options (stored compression, default timestamps).
pub uninterp spec fn zip_encode(entries: Seq<(Seq<char>, Option<u32>, Seq<u8>)>) -> Seq<u8>;

/// Relies on zip's `ZipWriter::new` over an in-memory buffer: a fresh writer
/// holds no entries.
#[verifier::external_body]
fn zw_new() -> (w: PkgWriter)
    ensures
        built_entries(w) == Seq::<(Seq<char>, Option<u32>, Seq<u8>)>::empty(),
{
    PkgWriter { inner: zip::ZipWriter::new(std::io::Cursor::new(Vec::new())) }
}

/// Relies on zip's `ZipWriter::add_directory` with default options: records
/// an empty directory entry, appending a `/` to the given name. Writing into
/// the in-memory buffer cannot fail: every error path of `add_directory` is
/// an I/O error of the underlying writer, and `Cursor<Vec<u8>>` writes and
/// seeks always succeed.
#[verifier::external_body]
fn zw_add_dir(w: &mut PkgWriter, name: &str) -> (r: Result<(), ErrorKind>)
    requires
        name@.len() > 0,
        name@.last() != '/',
        name@.last() != '\\',
    ensures
        r is Ok,
        r matches Ok(u) ==> built_entries(*final(w)) == built_entries(*old(w)).push(
            (name@ + "/"@, None::<u32>, Seq::<u8>::empty()),
        ),
{
    match w.inner.add_directory(name, zip::write::FileOptions::default()) {
        Ok(u) => Ok(u),
        Err(_) => Err(ErrorKind::Io),
    }
}

/// Relies on zip's `ZipWriter::start_file` with stored (uncompressed)
/// method and the given permission bits, and std's `Write::write_all` on the
/// writer: records one file entry with its payload. Below the four-byte
/// size-field threshold the writer raises no error of its own, and writes
/// into the in-memory buffer always succeed, so the call cannot fail.
#[verifier::external_body]
fn zw_add_file(w: &mut PkgWriter, name: &str, perm: u32, data: &[u8]) -> (r: Result<
    (),
    ErrorKind,
>)
    requires
        data@.len() <= 0xFFFF_FFFF,
    ensures
        r is Ok,
        r matches Ok(u) ==> built_entries(*final(w)) == built_entries(*old(w)).push(
            (name@, Some(perm), data@),
        ),
{
    let opts = zip::write::FileOptions::default().compression_method(
        zip::CompressionMethod::Stored,
    ).unix_permissions(perm);
    match w.inner.start_file(name, opts) {
        Ok(()) => match std::io::Write::write_all(&mut w.inner, data) {
            Ok(u) => Ok(u),
            Err(_) => Err(ErrorKind::Io),
        },
        Err(_) => Err(ErrorKind::Io),
    }
}

/// Relies on zip's `ZipWriter::finish` and std's `Cursor::into_inner`: the
/// finished archive's bytes, a function of the recorded entries alone since
/// every option this module passes is fixed. The central directory is
/// written into the in-memory buffer, so finishing always succeeds.
#[verifier::external_body]
fn zw_finish(w: PkgWriter) -> (r: Result<Vec<u8>, ErrorKind>)
    ensures
        r is Ok,
        r matches Ok(b) ==> b@ == zip_encode(built_entries(w)),
{
    let mut w = w;
    match w.inner.finish() {
        Ok(c) => Ok(c.into_inner()),
        Err(_) => Err(ErrorKind::Io),
    }
}

/// The packaged artifact's entry list: the package directory, the report
/// under the fixed label, and the icon bytes, in that order.
pub open spec fn package_entries(pkg: Seq<char>, report: Seq<char>, icon: Seq<u8>) -> Seq<
    (Seq<char>, Option<u32>, Seq<u8>),
> {
    seq![
        (pkg + "/"@, None::<u32>, Seq::<u8>::empty()),
        (pkg + "/特征.txt"@, Some(0o755u32), encode_utf8(report)),
        (pkg + "/icon.png"@, Some(0o755u32), icon),
    ]
}

/// Builds the package ZIP in memory: exactly the three entries of
/// `package_entries`, encoded by the writer. Building cannot fail: the
/// writer works on an in-memory buffer, and the size bounds keep each entry
/// below the writer's four-byte size fields.
pub fn build_package_zip(pkg_name: &str, report: &str, icon: &Vec<u8>) -> (r: Result<
    Vec<u8>,
    ErrorKind,
>)
    requires
        pkg_name@.len() > 0,
        pkg_name@.last() != '/',
        pkg_name@.last() != '\\',
        encode_utf8(report@).len() <= 0xFFFF_FFFF,
        icon@.len() <= 0xFFFF_FFFF,
    ensures
        r is Ok,
        r matches Ok(b) ==> b@ == zip_encode(package_entries(pkg_name@, report@, icon@)),
{
    let mut w = zw_new();
    match zw_add_dir(&mut w, pkg_name) {
        Ok(_) => {},
        Err(e) => {
            return Err(e);
        },
    }
    let txt_name = pkg_name.to_owned().concat("/特征.txt");
    match zw_add_file(&mut w, txt_name.as_str(), 0o755, report.as_bytes()) {
        Ok(_) => {},
        Err(e) => {
            return Err(e);
        },
    }
    let icon_name = pkg_name.to_owned().concat("/icon.png");
    match zw_add_file(&mut w, icon_name.as_str(), 0o755, icon.as_slice()) {
        Ok(_) => {},
        Err(e) => {
            return Err(e);
        },
    }
    proof {
        assert(built_entries(w) =~~= package_entries(pkg_name@, report@, icon@));
    }
    zw_finish(w)
}

} // verus!
