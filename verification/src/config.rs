//! The process-wide configuration and its extractor.
//!
//! The configuration file is decoded outside this crate into the plain
//! `Json` model below; `Config::import` then validates the shape and pulls
//! the typed tables out, reporting the first offending piece as a `CfgError`.

use vstd::prelude::*;
use vstd::string::StringSliceAdditionalSpecFns;
use vstd::utf8::encode_utf8;

use crate::wire::bytes_eq;

verus! {

/// A decoded configuration document. Only the shapes the configuration uses
/// are distinguished; everything else (numbers, booleans, null) is `Other`
/// and rejected wherever it appears.
pub enum Json {
    Str(String),
    Arr(Vec<Json>),
    Obj(Vec<(String, Json)>),
    Other,
}

/// Why a configuration was rejected. The embedding process prefixes each
/// report with `cfg:` when printing it.
#[derive(Clone, Copy, PartialEq, Eq, Structural, Debug)]
pub enum CfgError {
    /// The document is not an object.
    NotObject,
    /// No `files` object.
    MissingFiles,
    /// No `directories` object.
    MissingDirectories,
    /// No `commands` object.
    MissingCommands,
    /// A table entry is not an array.
    EntryNotArray,
    /// A table entry's array holds a non-string.
    EntryNotString,
    /// A `files` entry has fewer than two elements.
    FilesFormat,
    /// A `directories` entry has fewer than two elements.
    DirectoriesFormat,
    /// A `commands` entry is empty.
    CommandFormat,
    /// `address` is missing or not a string.
    AddressNotString,
    /// `not_found` is missing or not a string.
    NotFoundNotString,
    /// `server` is missing or not a string.
    ServerNotString,
}

/// The immutable process-wide configuration.
pub struct Config {
    /// URL path to (filesystem path, MIME type).
    pub files: Vec<(String, (String, String))>,
    /// The address to listen on.
    pub address: String,
    /// Same shape as `files`; parsed but not consulted by the router.
    pub directories: Vec<(String, (String, String))>,
    /// Path of the file whose content backs the 404 response.
    pub not_found: String,
    /// The `Server` header banner.
    pub server: String,
    /// URL path to (executable, argument list).
    pub commands: Vec<(String, (String, Vec<String>))>,
}

/// First value in an object's entries under the key with UTF-8 bytes `key`.
pub open spec fn obj_get(entries: Seq<(String, Json)>, key: Seq<u8>, i: int) -> Option<Json>
    decreases entries.len() - i,
{
    if i < 0 || i >= entries.len() {
        None
    } else if encode_utf8(entries[i].0@) == key {
        Some(entries[i].1)
    } else {
        obj_get(entries, key, i + 1)
    }
}

/// Whether every element of `a` is a string.
pub open spec fn all_strings(a: Seq<Json>) -> bool {
    forall|i: int| 0 <= i < a.len() ==> a[i] is Str
}

/// The string a `Json::Str` holds.
pub open spec fn str_of(j: Json) -> String
    recommends
        j is Str,
{
    match j {
        Json::Str(s) => s,
        _ => vstd::pervasive::arbitrary(),
    }
}

/// Validates one `files`/`directories` entry: an array of strings with at
/// least two elements, whose last two are the filesystem path and MIME type.
pub open spec fn pair_entry(v: Json, short: CfgError) -> Result<(String, String), CfgError> {
    match v {
        Json::Arr(a) => {
            if !all_strings(a@) {
                Err(CfgError::EntryNotString)
            } else if a@.len() < 2 {
                Err(short)
            } else {
                Ok((str_of(a@[a@.len() - 2]), str_of(a@[a@.len() - 1])))
            }
        },
        _ => Err(CfgError::EntryNotArray),
    }
}

/// Extracts a whole `files`/`directories` table, stopping at the first bad
/// entry.
pub open spec fn spec_pairs(entries: Seq<(String, Json)>, i: int, short: CfgError) -> Result<
    Seq<(String, (String, String))>,
    CfgError,
>
    decreases entries.len() - i,
{
    if i < 0 || i >= entries.len() {
        Ok(Seq::empty())
    } else {
        match pair_entry(entries[i].1, short) {
            Err(e) => Err(e),
            Ok(pm) => match spec_pairs(entries, i + 1, short) {
                Err(e) => Err(e),
                Ok(rest) => Ok(seq![(entries[i].0, pm)] + rest),
            },
        }
    }
}

/// Validates one `commands` entry: a non-empty array of strings; the first
/// element is the executable and the rest are its arguments.
pub open spec fn command_entry(v: Json) -> Result<(String, Seq<String>), CfgError> {
    match v {
        Json::Arr(a) => {
            if !all_strings(a@) {
                Err(CfgError::EntryNotString)
            } else if a@.len() < 1 {
                Err(CfgError::CommandFormat)
            } else {
                Ok((str_of(a@[0]), Seq::new((a@.len() - 1) as nat, |i: int| str_of(a@[i + 1]))))
            }
        },
        _ => Err(CfgError::EntryNotArray),
    }
}

/// Extracts the whole `commands` table, stopping at the first bad entry.
pub open spec fn spec_cmds(entries: Seq<(String, Json)>, i: int) -> Result<
    Seq<(String, String, Seq<String>)>,
    CfgError,
>
    decreases entries.len() - i,
{
    if i < 0 || i >= entries.len() {
        Ok(Seq::empty())
    } else {
        match command_entry(entries[i].1) {
            Err(e) => Err(e),
            Ok(ca) => match spec_cmds(entries, i + 1) {
                Err(e) => Err(e),
                Ok(rest) => Ok(seq![(entries[i].0, ca.0, ca.1)] + rest),
            },
        }
    }
}

/// A required top-level string value.
pub open spec fn spec_get_str(entries: Seq<(String, Json)>, key: Seq<u8>, err: CfgError) -> Result<
    String,
    CfgError,
> {
    match obj_get(entries, key, 0) {
        Some(Json::Str(s)) => Ok(s),
        _ => Err(err),
    }
}

/// What importing a document yields: the `files`, `directories` and
/// `commands` tables and the three top-level strings (address, not_found,
/// server), or the first error in that order of checks.
pub open spec fn spec_import(j: Json) -> Result<
    (
        Seq<(String, (String, String))>,
        Seq<(String, (String, String))>,
        Seq<(String, String, Seq<String>)>,
        String,
        String,
        String,
    ),
    CfgError,
> {
    match j {
        Json::Obj(entries) => {
            let files = match obj_get(entries@, encode_utf8("files"@), 0) {
                Some(Json::Obj(fe)) => spec_pairs(fe@, 0, CfgError::FilesFormat),
                _ => Err(CfgError::MissingFiles),
            };
            match files {
                Err(e) => Err(e),
                Ok(fs) => {
                    let dirs = match obj_get(entries@, encode_utf8("directories"@), 0) {
                        Some(Json::Obj(de)) => spec_pairs(de@, 0, CfgError::DirectoriesFormat),
                        _ => Err(CfgError::MissingDirectories),
                    };
                    match dirs {
                        Err(e) => Err(e),
                        Ok(ds) => {
                            let cmds = match obj_get(entries@, encode_utf8("commands"@), 0) {
                                Some(Json::Obj(ce)) => spec_cmds(ce@, 0),
                                _ => Err(CfgError::MissingCommands),
                            };
                            match cmds {
                                Err(e) => Err(e),
                                Ok(cs) => {
                                    match spec_get_str(
                                        entries@,
                                        encode_utf8("address"@),
                                        CfgError::AddressNotString,
                                    ) {
                                        Err(e) => Err(e),
                                        Ok(addr) => match spec_get_str(
                                            entries@,
                                            encode_utf8("not_found"@),
                                            CfgError::NotFoundNotString,
                                        ) {
                                            Err(e) => Err(e),
                                            Ok(nf) => match spec_get_str(
                                                entries@,
                                                encode_utf8("server"@),
                                                CfgError::ServerNotString,
                                            ) {
                                                Err(e) => Err(e),
                                                Ok(srv) => Ok((fs, ds, cs, addr, nf, srv)),
                                            },
                                        },
                                    }
                                },
                            }
                        },
                    }
                },
            }
        },
        _ => Err(CfgError::NotObject),
    }
}

/// The extracted `commands` table matches its specification triple by triple.
pub open spec fn cmds_match(
    v: Seq<(String, (String, Vec<String>))>,
    s: Seq<(String, String, Seq<String>)>,
) -> bool {
    &&& v.len() == s.len()
    &&& forall|i: int|
        0 <= i < v.len() ==> (#[trigger] v[i]).0 == s[i].0 && v[i].1.0 == s[i].1 && v[i].1.1@
            == s[i].2
}

/// Looks a key up among an object's entries.
fn obj_get_exec<'a>(entries: &'a Vec<(String, Json)>, key: &str) -> (r: Option<&'a Json>)
    ensures
        match obj_get(entries@, key.spec_bytes(), 0) {
            None => r is None,
            Some(v) => r matches Some(rv) && *rv == v,
        },
{
    let mut i: usize = 0;
    while i < entries.len()
        invariant
            i <= entries@.len(),
            obj_get(entries@, key.spec_bytes(), 0) == obj_get(entries@, key.spec_bytes(), i as int),
        decreases entries@.len() - i,
    {
        if bytes_eq(entries[i].0.as_str().as_bytes(), key.as_bytes()) {
            return Some(&entries[i].1);
        }
        i += 1;
    }
    None
}

/// Validates one `files`/`directories` entry.
fn pair_entry_exec(v: &Json, short: CfgError) -> (r: Result<(String, String), CfgError>)
    ensures
        r == pair_entry(*v, short),
{
    match v {
        Json::Arr(a) => {
            let mut i: usize = 0;
            while i < a.len()
                invariant
                    i <= a@.len(),
                    (*v matches Json::Arr(av) && av@ == a@),
                    forall|j: int| 0 <= j < i ==> a@[j] is Str,
                decreases a@.len() - i,
            {
                match &a[i] {
                    Json::Str(_) => {},
                    _ => {
                        proof {
                            assert(!(a@[i as int] is Str));
                            assert(!all_strings(a@));
                        }
                        return Err(CfgError::EntryNotString);
                    },
                }
                i += 1;
            }
            if a.len() < 2 {
                return Err(short);
            }
            let path = match &a[a.len() - 2] {
                Json::Str(s) => s.clone(),
                _ => {
                    proof {
                        assert(false);
                    }
                    return Err(short);
                },
            };
            let mime = match &a[a.len() - 1] {
                Json::Str(s) => s.clone(),
                _ => {
                    proof {
                        assert(false);
                    }
                    return Err(short);
                },
            };
            Ok((path, mime))
        },
        _ => Err(CfgError::EntryNotArray),
    }
}

/// Extracts a whole `files`/`directories` table.
fn pairs_exec(entries: &Vec<(String, Json)>, short: CfgError) -> (r: Result<
    Vec<(String, (String, String))>,
    CfgError,
>)
    ensures
        match spec_pairs(entries@, 0, short) {
            Err(e) => r == Err::<Vec<(String, (String, String))>, CfgError>(e),
            Ok(s) => r matches Ok(v) && v@ == s,
        },
{
    let mut out: Vec<(String, (String, String))> = Vec::new();
    let mut i: usize = 0;
    while i < entries.len()
        invariant
            i <= entries@.len(),
            match spec_pairs(entries@, i as int, short) {
                Err(e) => spec_pairs(entries@, 0, short) == Err::<
                    Seq<(String, (String, String))>,
                    CfgError,
                >(e),
                Ok(rest) => spec_pairs(entries@, 0, short) == Ok::<
                    Seq<(String, (String, String))>,
                    CfgError,
                >(out@ + rest),
            },
        decreases entries@.len() - i,
    {
        match pair_entry_exec(&entries[i].1, short) {
            Err(e) => {
                return Err(e);
            },
            Ok(pm) => {
                let ghost old_out = out@;
                out.push((entries[i].0.clone(), pm));
                proof {
                    if let Ok(rest) = spec_pairs(entries@, (i + 1) as int, short) {
                        assert(old_out + (seq![(entries@[i as int].0, pair_entry(
                            entries@[i as int].1,
                            short,
                        )->Ok_0)] + rest) =~= out@ + rest);
                    }
                }
            },
        }
        i += 1;
    }
    proof {
        assert(out@ + Seq::<(String, (String, String))>::empty() =~= out@);
    }
    Ok(out)
}

/// Validates one `commands` entry.
fn command_entry_exec(v: &Json) -> (r: Result<(String, Vec<String>), CfgError>)
    ensures
        match command_entry(*v) {
            Err(e) => r == Err::<(String, Vec<String>), CfgError>(e),
            Ok(ca) => r matches Ok(rc) && rc.0 == ca.0 && rc.1@ == ca.1,
        },
{
    match v {
        Json::Arr(a) => {
            let mut i: usize = 0;
            while i < a.len()
                invariant
                    i <= a@.len(),
                    (*v matches Json::Arr(av) && av@ == a@),
                    forall|j: int| 0 <= j < i ==> a@[j] is Str,
                decreases a@.len() - i,
            {
                match &a[i] {
                    Json::Str(_) => {},
                    _ => {
                        proof {
                            assert(!(a@[i as int] is Str));
                            assert(!all_strings(a@));
                        }
                        return Err(CfgError::EntryNotString);
                    },
                }
                i += 1;
            }
            if a.len() < 1 {
                return Err(CfgError::CommandFormat);
            }
            let cmd = match &a[0] {
                Json::Str(s) => s.clone(),
                _ => {
                    proof {
                        assert(false);
                    }
                    return Err(CfgError::CommandFormat);
                },
            };
            let mut args: Vec<String> = Vec::new();
            let mut k: usize = 1;
            while k < a.len()
                invariant
                    1 <= k <= a@.len(),
                    (*v matches Json::Arr(av) && av@ == a@),
                    all_strings(a@),
                    a@.len() >= 1,
                    args@.len() == k - 1,
                    forall|j: int| 0 <= j < k - 1 ==> args@[j] == str_of(a@[j + 1]),
                decreases a@.len() - k,
            {
                match &a[k] {
                    Json::Str(s) => {
                        args.push(s.clone());
                    },
                    _ => {
                        proof {
                            assert(false);
                        }
                        return Err(CfgError::CommandFormat);
                    },
                }
                k += 1;
            }
            proof {
                assert(args@ =~= command_entry(*v)->Ok_0.1);
            }
            Ok((cmd, args))
        },
        _ => Err(CfgError::EntryNotArray),
    }
}

/// Extracts the whole `commands` table.
fn cmds_exec(entries: &Vec<(String, Json)>) -> (r: Result<
    Vec<(String, (String, Vec<String>))>,
    CfgError,
>)
    ensures
        match spec_cmds(entries@, 0) {
            Err(e) => r == Err::<Vec<(String, (String, Vec<String>))>, CfgError>(e),
            Ok(s) => r matches Ok(v) && cmds_match(v@, s),
        },
{
    let mut out: Vec<(String, (String, Vec<String>))> = Vec::new();
    let mut i: usize = 0;
    while i < entries.len()
        invariant
            i <= entries@.len(),
            match spec_cmds(entries@, i as int) {
                Err(e) => spec_cmds(entries@, 0) == Err::<
                    Seq<(String, String, Seq<String>)>,
                    CfgError,
                >(e),
                Ok(rest) => {
                    &&& spec_cmds(entries@, 0) matches Ok(whole)
                    &&& whole.len() == out@.len() + rest.len()
                    &&& cmds_match(out@, whole.take(out@.len() as int))
                    &&& whole.skip(out@.len() as int) == rest
                },
            },
        decreases entries@.len() - i,
    {
        match command_entry_exec(&entries[i].1) {
            Err(e) => {
                return Err(e);
            },
            Ok(ca) => {
                let ghost old_out = out@;
                out.push((entries[i].0.clone(), ca));
                proof {
                    let old_len = old_out.len() as int;
                    if spec_cmds(entries@, i as int + 1) is Ok {
                        let rest = spec_cmds(entries@, i as int + 1)->Ok_0;
                        let rest_i = spec_cmds(entries@, i as int)->Ok_0;
                        let whole = spec_cmds(entries@, 0)->Ok_0;
                        assert(rest_i == seq![
                            (entries@[i as int].0, command_entry(entries@[i as int].1)->Ok_0.0,
                            command_entry(entries@[i as int].1)->Ok_0.1),
                        ] + rest);
                        assert(whole.len() == old_len + rest_i.len());
                        assert(whole.skip(old_len) == rest_i);
                        assert(whole[old_len] == whole.skip(old_len)[0]);
                        assert forall|j: int| 0 <= j < rest.len() implies whole.skip(
                            old_len + 1,
                        )[j] == rest[j] by {
                            assert(whole.skip(old_len)[j + 1] == rest_i[j + 1]);
                            assert(rest_i[j + 1] == rest[j]);
                            assert(whole.skip(old_len + 1)[j] == whole[old_len + 1 + j]);
                            assert(whole.skip(old_len)[j + 1] == whole[old_len + 1 + j]);
                        }
                        assert(whole.skip(old_len + 1) =~= rest);
                        assert(whole.take(old_len + 1) =~= whole.take(old_len).push(
                            whole[old_len],
                        ));
                        assert(cmds_match(out@, whole.take(old_len + 1)));
                    }
                }
            },
        }
        i += 1;
    }
    proof {
        if let Ok(whole) = spec_cmds(entries@, 0) {
            assert(whole.take(out@.len() as int) =~= whole);
        }
    }
    Ok(out)
}

/// A required top-level string.
fn get_str(entries: &Vec<(String, Json)>, key: &str, err: CfgError) -> (r: Result<
    String,
    CfgError,
>)
    ensures
        r == spec_get_str(entries@, key.spec_bytes(), err),
{
    match obj_get_exec(entries, key) {
        Some(Json::Str(s)) => Ok(s.clone()),
        _ => Err(err),
    }
}

impl Config {
    /// Validates a decoded configuration document and extracts the typed
    /// configuration, or reports the first offending piece.
    pub fn import(j: &Json) -> (r: Result<Config, CfgError>)
        ensures
            match spec_import(*j) {
                Err(e) => r matches Err(re) && re == e,
                Ok(t) => {
                    &&& r matches Ok(cfg)
                    &&& cfg.files@ == t.0
                    &&& cfg.directories@ == t.1
                    &&& cmds_match(cfg.commands@, t.2)
                    &&& cfg.address == t.3
                    &&& cfg.not_found == t.4
                    &&& cfg.server == t.5
                },
            },
    {
        let entries = match j {
            Json::Obj(entries) => entries,
            _ => {
                return Err(CfgError::NotObject);
            },
        };
        let files = match obj_get_exec(entries, "files") {
            Some(Json::Obj(fe)) => {
                match pairs_exec(fe, CfgError::FilesFormat) {
                    Ok(fs) => fs,
                    Err(e) => {
                        return Err(e);
                    },
                }
            },
            _ => {
                return Err(CfgError::MissingFiles);
            },
        };
        let directories = match obj_get_exec(entries, "directories") {
            Some(Json::Obj(de)) => {
                match pairs_exec(de, CfgError::DirectoriesFormat) {
                    Ok(ds) => ds,
                    Err(e) => {
                        return Err(e);
                    },
                }
            },
            _ => {
                return Err(CfgError::MissingDirectories);
            },
        };
        let commands = match obj_get_exec(entries, "commands") {
            Some(Json::Obj(ce)) => {
                match cmds_exec(ce) {
                    Ok(cs) => cs,
                    Err(e) => {
                        return Err(e);
                    },
                }
            },
            _ => {
                return Err(CfgError::MissingCommands);
            },
        };
        let address = match get_str(entries, "address", CfgError::AddressNotString) {
            Ok(s) => s,
            Err(e) => {
                return Err(e);
            },
        };
        let not_found = match get_str(entries, "not_found", CfgError::NotFoundNotString) {
            Ok(s) => s,
            Err(e) => {
                return Err(e);
            },
        };
        let server = match get_str(entries, "server", CfgError::ServerNotString) {
            Ok(s) => s,
            Err(e) => {
                return Err(e);
            },
        };
        Ok(Config { files, address, directories, not_found, server, commands })
    }
}

} // verus!
