//! The rename planner.
//!
//! Given a detected file path, the planner derives the extension and the
//! parent directory, formats the current local date as the base of the new
//! name, and resolves collisions deterministically: candidates are tried
//! in the order `base.ext`, `base (1).ext`, `base (2).ext`, … and the
//! first one absent from the parent directory wins, within a bounded
//! search space.  The caller performs the settle delay and the actual
//! filesystem move; the planner computes and never touches the disk.

use vstd::prelude::*;
use core::fmt::Write;

use crate::config::AppConfig;
use crate::fspath::{
    has_extension, has_parent, dir_prefix, stem_of, ext_of, find_last_sep, find_last_dot,
    bytes_range, copy_bytes,
};

verus! {

/// Why one rename attempt failed.  Errors are local to one file's
/// pipeline: the loop reports them and continues watching.
#[derive(Clone, Copy, Debug, PartialEq, Eq, Structural)]
pub enum RenameError {
    /// The file name has no stem.  Kept for completeness of the taxonomy;
    /// the planner itself never produces it, since a name with an
    /// extension always has a (possibly hidden-file) stem.
    NoStem,
    /// The file name has no extension.
    NoExtension,
    /// The path has no parent directory.
    NoParentDirectory,
    /// The filesystem move failed; produced by the caller that performs
    /// the move, never by the planner.
    IoError,
    /// Every candidate name within the bounded search space is taken.
    NoAvailableFilename,
    /// The date pattern (or the optional skip pattern) is malformed.
    InvalidDateFormat,
}

impl RenameError {
    /// A short description of the failure, for display by the caller.
    pub fn message(&self) -> (r: &'static str)
        ensures
            self is NoStem ==> r@ == "file has no stem"@,
            self is NoExtension ==> r@ == "file has no extension"@,
            self is NoParentDirectory ==> r@ == "file has no parent directory"@,
            self is IoError ==> r@ == "i/o error"@,
            self is NoAvailableFilename ==> r@ == "could not find available filename"@,
            self is InvalidDateFormat ==> r@ == "invalid date format"@,
    {
        match self {
            RenameError::NoStem => "file has no stem",
            RenameError::NoExtension => "file has no extension",
            RenameError::NoParentDirectory => "file has no parent directory",
            RenameError::IoError => "i/o error",
            RenameError::NoAvailableFilename => "could not find available filename",
            RenameError::InvalidDateFormat => "invalid date format",
        }
    }
}

/// The defensive upper bound of the collision probe: how many candidate
/// names are tried before the planner gives up.
pub const MAX_RENAME_ATTEMPTS: u64 = 2000;

/// Whether a strftime-style pattern is well-formed.  Well-formedness is a
/// function of the pattern alone; what a well-formed pattern produces
/// depends on the clock and is deliberately left unstated.
pub uninterp spec fn date_format_valid(format: Seq<char>) -> bool;

/// Whether a regular-expression pattern compiles.
pub uninterp spec fn pattern_valid(pattern: Seq<char>) -> bool;

/// Whether a compiled pattern matches a haystack of bytes (decoded
/// lossily as UTF-8): a function of the pattern and the bytes alone.
pub uninterp spec fn pattern_match(pattern: Seq<char>, text: Seq<u8>) -> bool;

/// Relies on chrono's `Local::now` and `DateTime::format`: formatting the
/// current local time with a strftime-style pattern succeeds exactly when
/// the pattern is well-formed (a full date-time supplies every field, so
/// only a malformed specifier makes it fail).  The produced bytes depend
/// on the clock, so nothing is stated about them.
#[verifier::external_body]
fn local_date_bytes(format: &str) -> (r: Option<Vec<u8>>)
    ensures
        r is Some <==> date_format_valid(format@),
{
    let mut out = String::new();
    match write!(out, "{}", chrono::Local::now().format(format)) {
        Ok(()) => Some(out.into_bytes()),
        Err(_) => None,
    }
}

/// Relies on `regex::Regex::new` and `regex::Regex::is_match`: whether a
/// pattern compiles depends on the pattern alone, and whether a haystack
/// matches depends on the pattern and the haystack alone.  The two calls
/// stand together because a compiled pattern carries no trace of its
/// source text that a contract could speak about.
#[verifier::external_body]
fn pattern_probe(pattern: &str, text: &Vec<u8>) -> (r: Option<bool>)
    ensures
        r is Some <==> pattern_valid(pattern@),
        r matches Some(m) ==> m == pattern_match(pattern@, text@),
{
    match regex::Regex::new(pattern) {
        Ok(re) => Some(re.is_match(String::from_utf8_lossy(text.as_slice()).as_ref())),
        Err(_) => None,
    }
}

/// The decimal digits of `n`, most significant first.
pub open spec fn dec_digits(n: nat) -> Seq<u8>
    decreases n,
{
    if n < 10 {
        seq![(48 + n) as u8]
    } else {
        dec_digits(n / 10).push((48 + n % 10) as u8)
    }
}

/// The candidate file name of probe step `n`: `base.ext` first, then
/// `base (1).ext`, `base (2).ext`, and so on.
pub open spec fn candidate_name(base: Seq<u8>, ext: Seq<u8>, n: nat) -> Seq<u8> {
    if n == 0 {
        base + seq![46u8] + ext
    } else {
        base + seq![32u8, 40u8] + dec_digits(n) + seq![41u8, 46u8] + ext
    }
}

/// Whether `name` is already present among the entries of the parent
/// directory.
pub open spec fn taken(existing: Seq<Vec<u8>>, name: Seq<u8>) -> bool {
    exists|i: int| 0 <= i < existing.len() && existing[i]@ == name
}

/// Whether every candidate within the bounded search space is taken, so
/// that the probe must give up.
pub open spec fn all_candidates_taken(existing: Seq<Vec<u8>>, base: Seq<u8>, ext: Seq<u8>) -> bool {
    forall|k: nat|
        k < MAX_RENAME_ATTEMPTS ==> taken(existing, #[trigger] candidate_name(base, ext, k))
}

/// Append the decimal digits of `n` to `out`.
fn push_decimal(n: u64, out: &mut Vec<u8>)
    ensures
        final(out)@ == old(out)@ + dec_digits(n as nat),
    decreases n,
{
    if n >= 10 {
        push_decimal(n / 10, out);
    }
    out.push((n % 10) as u8 + 48);
    proof {
        if n >= 10 {
            assert(old(out)@ + dec_digits((n / 10) as nat) + seq![(48 + n % 10) as u8] =~= old(
                out,
            )@ + dec_digits(n as nat));
        } else {
            assert(old(out)@ + seq![(48 + n % 10) as u8] =~= old(out)@ + dec_digits(n as nat));
        }
    }
}

/// Build the candidate name of probe step `n` as bytes.
pub fn build_candidate(base: &Vec<u8>, ext: &Vec<u8>, n: u64) -> (r: Vec<u8>)
    ensures
        r@ == candidate_name(base@, ext@, n as nat),
{
    let mut out = copy_bytes(base);
    if n > 0 {
        out.push(32);
        out.push(40);
        push_decimal(n, &mut out);
        out.push(41);
    }
    out.push(46);
    let mut tail = copy_bytes(ext);
    out.append(&mut tail);
    proof {
        assert(out@ =~= candidate_name(base@, ext@, n as nat));
    }
    out
}

/// Compare two byte strings for equality.
fn bytes_equal(a: &Vec<u8>, b: &Vec<u8>) -> (r: bool)
    ensures
        r == (a@ == b@),
{
    if a.len() != b.len() {
        return false;
    }
    let mut i: usize = 0;
    while i < a.len()
        invariant
            a@.len() == b@.len(),
            i <= a@.len(),
            forall|j: int| 0 <= j < i ==> a@[j] == b@[j],
        decreases a@.len() - i,
    {
        if a[i] != b[i] {
            return false;
        }
        i = i + 1;
    }
    proof {
        assert(a@ =~= b@);
    }
    true
}

/// Whether `name` equals one of the entries in `existing`.
fn name_taken(name: &Vec<u8>, existing: &Vec<Vec<u8>>) -> (r: bool)
    ensures
        r == taken(existing@, name@),
{
    let mut i: usize = 0;
    while i < existing.len()
        invariant
            i <= existing@.len(),
            forall|j: int| 0 <= j < i ==> existing@[j]@ != name@,
        decreases existing@.len() - i,
    {
        if bytes_equal(&existing[i], name) {
            return true;
        }
        i = i + 1;
    }
    false
}

/// Pick the first candidate name not already present in the parent
/// directory, probing in the deterministic order of `candidate_name`.
pub fn choose_name(base: &Vec<u8>, ext: &Vec<u8>, existing: &Vec<Vec<u8>>) -> (r: Result<
    Vec<u8>,
    RenameError,
>)
    ensures
        match r {
            Ok(name) => exists|k: nat|
                k < MAX_RENAME_ATTEMPTS && name@ == candidate_name(base@, ext@, k) && !taken(
                    existing@,
                    candidate_name(base@, ext@, k),
                ) && (forall|m: nat|
                    m < k ==> taken(existing@, #[trigger] candidate_name(base@, ext@, m))),
            Err(e) => e == RenameError::NoAvailableFilename && (forall|k: nat|
                k < MAX_RENAME_ATTEMPTS ==> taken(
                    existing@,
                    #[trigger] candidate_name(base@, ext@, k),
                )),
        },
{
    let mut n: u64 = 0;
    while n < MAX_RENAME_ATTEMPTS
        invariant
            n <= MAX_RENAME_ATTEMPTS,
            forall|m: nat| m < n ==> taken(existing@, #[trigger] candidate_name(base@, ext@, m)),
        decreases MAX_RENAME_ATTEMPTS - n,
    {
        let cand = build_candidate(base, ext, n);
        if !name_taken(&cand, existing) {
            proof {
                let k = n as nat;
                assert(k < MAX_RENAME_ATTEMPTS && cand@ == candidate_name(base@, ext@, k) && !taken(
                    existing@,
                    candidate_name(base@, ext@, k),
                ) && (forall|m: nat|
                    m < k ==> taken(existing@, #[trigger] candidate_name(base@, ext@, m))));
            }
            return Ok(cand);
        }
        n = n + 1;
    }
    Err(RenameError::NoAvailableFilename)
}

/// Every decimal representation has at least one digit.
proof fn lemma_dec_digits_len(n: nat)
    ensures
        dec_digits(n).len() >= 1,
    decreases n,
{
    if n >= 10 {
        lemma_dec_digits_len(n / 10);
    }
}

/// Decimal representations are unique.
proof fn lemma_dec_digits_injective(m: nat, n: nat)
    requires
        dec_digits(m) == dec_digits(n),
    ensures
        m == n,
    decreases m,
{
    lemma_dec_digits_len(m);
    lemma_dec_digits_len(n);
    if m < 10 && n < 10 {
        assert(dec_digits(m)[0] == (48 + m) as u8);
        assert(dec_digits(n)[0] == (48 + n) as u8);
    } else if m < 10 {
        lemma_dec_digits_len(n / 10);
        assert(dec_digits(n).len() == dec_digits(n / 10).len() + 1);
        assert(false);
    } else if n < 10 {
        lemma_dec_digits_len(m / 10);
        assert(dec_digits(m).len() == dec_digits(m / 10).len() + 1);
        assert(false);
    } else {
        assert(dec_digits(m).last() == (48 + m % 10) as u8);
        assert(dec_digits(n).last() == (48 + n % 10) as u8);
        assert(m % 10 == n % 10);
        assert(dec_digits(m).drop_last() =~= dec_digits(m / 10));
        assert(dec_digits(n).drop_last() =~= dec_digits(n / 10));
        lemma_dec_digits_injective(m / 10, n / 10);
        vstd::arithmetic::div_mod::lemma_fundamental_div_mod(m as int, 10);
        vstd::arithmetic::div_mod::lemma_fundamental_div_mod(n as int, 10);
    }
}

/// Candidate names are pairwise distinct: equal names mean equal probe
/// steps.
pub proof fn lemma_candidate_injective(base: Seq<u8>, ext: Seq<u8>, m: nat, n: nat)
    requires
        candidate_name(base, ext, m) == candidate_name(base, ext, n),
    ensures
        m == n,
{
    if m == 0 && n == 0 {
    } else if m == 0 {
        lemma_dec_digits_len(n);
        assert(candidate_name(base, ext, m).len() == base.len() + 1 + ext.len());
        assert(candidate_name(base, ext, n).len() == base.len() + 4 + dec_digits(n).len()
            + ext.len());
        assert(false);
    } else if n == 0 {
        lemma_dec_digits_len(m);
        assert(candidate_name(base, ext, n).len() == base.len() + 1 + ext.len());
        assert(candidate_name(base, ext, m).len() == base.len() + 4 + dec_digits(m).len()
            + ext.len());
        assert(false);
    } else {
        let a = candidate_name(base, ext, m);
        let b = candidate_name(base, ext, n);
        let dm = dec_digits(m);
        let dn = dec_digits(n);
        assert(a.len() == base.len() + 4 + dm.len() + ext.len());
        assert(b.len() == base.len() + 4 + dn.len() + ext.len());
        assert(dm.len() == dn.len());
        assert forall|i: int| 0 <= i < dm.len() implies dm[i] == dn[i] by {
            assert(a[base.len() + 2 + i] == dm[i]);
            assert(b[base.len() + 2 + i] == dn[i]);
        }
        assert(dm =~= dn);
        lemma_dec_digits_injective(m, n);
    }
}

/// Law: a rename never overwrites.  A chosen name that is absent from
/// the parent directory differs from every entry already present, and
/// it equals exactly one candidate of the deterministic probe order.
pub proof fn lemma_rename_never_overwrites(
    existing: Seq<Vec<u8>>,
    base: Seq<u8>,
    ext: Seq<u8>,
    k: nat,
)
    requires
        !taken(existing, candidate_name(base, ext, k)),
    ensures
        forall|i: int|
            0 <= i < existing.len() ==> #[trigger] existing[i]@ != candidate_name(base, ext, k),
        forall|j: nat|
            #[trigger] candidate_name(base, ext, j) == candidate_name(base, ext, k) ==> j == k,
{
    assert forall|j: nat|
        #[trigger] candidate_name(base, ext, j) == candidate_name(base, ext, k) implies j == k by {
        lemma_candidate_injective(base, ext, j, k);
    }
}

/// The split of a detected path: the directory prefix (separator
/// included), the stem, and the extension of its final component.
pub struct PathParts {
    pub dir: Vec<u8>,
    pub stem: Vec<u8>,
    pub ext: Vec<u8>,
}

/// Split a path into directory prefix, stem and extension, failing as the
/// rename contract demands: no extension first, then no parent.
pub fn split_path(path: &Vec<u8>) -> (r: Result<PathParts, RenameError>)
    ensures
        match r {
            Ok(pp) => has_extension(path@) && has_parent(path@) && pp.dir@ == dir_prefix(path@)
                && pp.stem@ == stem_of(path@) && pp.ext@ == ext_of(path@),
            Err(e) => (!has_extension(path@) || !has_parent(path@)) && (e
                == RenameError::NoExtension <==> !has_extension(path@)) && (e
                == RenameError::NoParentDirectory <==> has_extension(path@) && !has_parent(path@)),
        },
{
    let plen = path.len();
    let sep = find_last_sep(path);
    let name_start: usize = match sep {
        Some(i) => i + 1,
        None => 0,
    };
    let name = bytes_range(path, name_start, plen);
    proof {
        assert(name@ == crate::fspath::name_of(path@));
    }
    match find_last_dot(&name) {
        None => Err(RenameError::NoExtension),
        Some(j) => {
            match sep {
                None => Err(RenameError::NoParentDirectory),
                Some(i) => {
                    let dir = bytes_range(path, 0, i + 1);
                    let stem = bytes_range(&name, 0, j);
                    let ext = bytes_range(&name, j + 1, name.len());
                    Ok(PathParts { dir, stem, ext })
                },
            }
        },
    }
}

/// Plan a rename with the date base already fixed: split the path, then
/// pick the first free candidate built from `date_base` and the path's
/// own extension, and return the full destination path.
pub fn plan_rename(path: &Vec<u8>, date_base: &Vec<u8>, existing: &Vec<Vec<u8>>) -> (r: Result<
    Vec<u8>,
    RenameError,
>)
    ensures
        match r {
            Ok(newp) => has_extension(path@) && has_parent(path@) && exists|k: nat|
                k < MAX_RENAME_ATTEMPTS && newp@ == dir_prefix(path@) + candidate_name(
                    date_base@,
                    ext_of(path@),
                    k,
                ) && !taken(existing@, candidate_name(date_base@, ext_of(path@), k)) && (
                forall|m: nat|
                    m < k ==> taken(
                        existing@,
                        #[trigger] candidate_name(date_base@, ext_of(path@), m),
                    )),
            Err(e) => {
                &&& (e == RenameError::NoExtension <==> !has_extension(path@))
                &&& (e == RenameError::NoParentDirectory <==> has_extension(path@) && !has_parent(
                    path@,
                ))
                &&& (e == RenameError::NoAvailableFilename <==> has_extension(path@) && has_parent(
                    path@,
                ) && (forall|k: nat|
                    k < MAX_RENAME_ATTEMPTS ==> taken(
                        existing@,
                        #[trigger] candidate_name(date_base@, ext_of(path@), k),
                    )))
                &&& (e is NoExtension || e is NoParentDirectory || e is NoAvailableFilename)
            },
        },
{
    let pp = match split_path(path) {
        Ok(pp) => pp,
        Err(e) => {
            return Err(e);
        },
    };
    let chosen = match choose_name(date_base, &pp.ext, existing) {
        Ok(name) => name,
        Err(e) => {
            return Err(e);
        },
    };
    let mut newp = pp.dir;
    let mut tail = chosen;
    newp.append(&mut tail);
    Ok(newp)
}

/// The renamer: holds the session configuration and, optionally, a
/// pattern of names to leave alone (a policy flag: a file whose stem
/// already matches it is not renamed).
pub struct FileRenamer {
    pub config: AppConfig,
    pub skip_pattern: Option<String>,
}

impl FileRenamer {
    /// A renamer for one session; the skip policy is off by default.
    pub fn new(config: AppConfig) -> (r: Self)
        ensures
            r.config == config,
            r.skip_pattern is None,
    {
        FileRenamer { config, skip_pattern: None }
    }

    /// Switch on the skip policy: a file whose stem already matches
    /// `pattern` keeps its name.
    pub fn set_skip_pattern(&mut self, pattern: String)
        ensures
            final(self).config == old(self).config,
            final(self).skip_pattern == Some(pattern),
    {
        self.skip_pattern = Some(pattern);
    }

    /// Compute the destination for one detected file.
    ///
    /// `existing` are the entry names of the file's parent directory.
    /// The result is the full destination path; the caller performs the
    /// move.  The date base comes from the clock, so the exact chosen
    /// name is stated existentially over it; for every fixed base the
    /// choice is pinned by `plan_rename`.
    pub fn rename_file(&self, path: &Vec<u8>, existing: &Vec<Vec<u8>>) -> (r: Result<
        Vec<u8>,
        RenameError,
    >)
        ensures
            (r == Err::<Vec<u8>, RenameError>(RenameError::NoExtension) <==> !has_extension(path@)),
            (r == Err::<Vec<u8>, RenameError>(RenameError::NoParentDirectory) <==> has_extension(
                path@,
            ) && !has_parent(path@)),
            self.skip_pattern matches Some(p) && has_extension(path@) && has_parent(path@)
                && !pattern_valid(p@) ==> r == Err::<Vec<u8>, RenameError>(
                RenameError::InvalidDateFormat,
            ),
            self.skip_pattern matches Some(p) && has_extension(path@) && has_parent(path@)
                && pattern_valid(p@) && pattern_match(p@, stem_of(path@)) ==> (r matches Ok(newp)
                && newp@ == path@),
            has_extension(path@) && has_parent(path@) && (self.skip_pattern matches Some(p) ==>
            pattern_valid(p@) && !pattern_match(p@, stem_of(path@))) && !date_format_valid(
                self.config.file_format@,
            ) ==> r == Err::<Vec<u8>, RenameError>(RenameError::InvalidDateFormat),
            has_extension(path@) && has_parent(path@) && (self.skip_pattern matches Some(p) ==>
            pattern_valid(p@) && !pattern_match(p@, stem_of(path@))) && date_format_valid(
                self.config.file_format@,
            ) ==> match r {
                Ok(newp) => exists|base: Seq<u8>, k: nat|
                    k < MAX_RENAME_ATTEMPTS && newp@ == dir_prefix(path@) + candidate_name(
                        base,
                        ext_of(path@),
                        k,
                    ) && !taken(existing@, candidate_name(base, ext_of(path@), k)) && (
                    forall|m: nat|
                        m < k ==> taken(existing@, #[trigger] candidate_name(base, ext_of(path@), m))),
                Err(e) => e == RenameError::NoAvailableFilename && exists|base: Seq<u8>|
                    all_candidates_taken(existing@, base, ext_of(path@)),
            },
    {
        let pp = match split_path(path) {
            Ok(pp) => pp,
            Err(e) => {
                return Err(e);
            },
        };
        match &self.skip_pattern {
            Some(pat) => {
                match pattern_probe(pat.as_str(), &pp.stem) {
                    None => {
                        return Err(RenameError::InvalidDateFormat);
                    },
                    Some(true) => {
                        return Ok(copy_bytes(path));
                    },
                    Some(false) => {},
                }
            },
            None => {},
        }
        let base = match local_date_bytes(self.config.file_format.as_str()) {
            Some(b) => b,
            None => {
                return Err(RenameError::InvalidDateFormat);
            },
        };
        let out = plan_rename(path, &base, existing);
        proof {
            if out is Err {
                assert(all_candidates_taken(existing@, base@, ext_of(path@)));
            } else {
                let k = choose|k: nat|
                    k < MAX_RENAME_ATTEMPTS && out->Ok_0@ == dir_prefix(path@) + candidate_name(
                        base@,
                        ext_of(path@),
                        k,
                    ) && !taken(existing@, candidate_name(base@, ext_of(path@), k)) && (
                    forall|m: nat|
                        m < k ==> taken(existing@, #[trigger] candidate_name(base@, ext_of(path@), m)));
                assert(k < MAX_RENAME_ATTEMPTS && out->Ok_0@ == dir_prefix(path@) + candidate_name(
                    base@,
                    ext_of(path@),
                    k,
                ) && !taken(existing@, candidate_name(base@, ext_of(path@), k)) && (
                forall|m: nat|
                    m < k ==> taken(existing@, #[trigger] candidate_name(base@, ext_of(path@), m))));
            }
        }
        out
    }
}

} // verus!
