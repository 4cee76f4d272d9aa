//! Structural decoding of the document tree into the typed profile.
//!
//! The rules are the format's: discriminated unions select on an explicit
//! tag field (`type`, `mem_type`), every numeric or boolean leaf is
//! string-encoded, a node collection is an array or the empty-string
//! sentinel, and any mismatch is a fatal schema error.

use vstd::prelude::*;
use crate::data_model::{
    Channel, Child, ExternalMemory, FileReference, Global, GlobalMemory, Local, Loop,
    ModuleInstance, ModuleInstanceDetails, OperationType, SpecChannel, SpecChild,
    SpecExternalMemory, SpecFileReference, SpecGlobal, SpecLocal, SpecLoop,
    SpecModuleInstance, SpecModuleInstanceDetails, view_channel, view_child,
    view_details, view_external_memory, view_file_reference, view_fr_seq, view_global,
    view_local, view_loop, view_module_instance,
    Board, Kernel, MemoryTransfers, Node, Nodes, Profile, RunInformation, SpecBoard,
    SpecKernel, SpecNode, SpecProfile, Versions, view_child_seq, view_kernel, view_node,
    view_node_seq, view_profile,
};
use crate::json::{Json, json_document_of, spec_obj_get, obj_get};
use crate::numeric::{
    Decimal, spec_parse_bool, spec_parse_decimal, spec_parse_i32, spec_parse_u32, spec_parse_u64,
    parse_bool, parse_decimal, parse_i32, parse_u32, parse_u64,
};

verus! {

/// Why a document fails to decode. Decoding is all-or-nothing: the first
/// failing piece, in schema order, names the error.
#[derive(Clone, Copy, PartialEq, Eq, Structural, Debug)]
pub enum SchemaError {
    /// The text is not valid JSON.
    Syntax,
    /// A required field is absent.
    MissingField,
    /// A value has the wrong JSON type for its position.
    WrongType,
    /// A non-empty string stands where an array or the empty sentinel was
    /// expected.
    NonEmptyString,
    /// A discriminator tag holds an unrecognized value.
    UnknownTag,
    /// A string-encoded scalar does not parse.
    BadValue,
}

/// A required field holding a native JSON string.
pub open spec fn s_field_string(fs: Seq<(String, Json)>, key: Seq<char>) -> Result<
    String,
    SchemaError,
> {
    match spec_obj_get(fs, key) {
        Some(Json::Text(s)) => Ok(s),
        Some(_) => Err(SchemaError::WrongType),
        None => Err(SchemaError::MissingField),
    }
}

pub fn field_string(fields: &Vec<(String, Json)>, key: &str) -> (r: Result<String, SchemaError>)
    ensures
        r == s_field_string(fields@, key@),
{
    match obj_get(fields, key) {
        Some(Json::Text(s)) => Ok(s.clone()),
        Some(_) => Err(SchemaError::WrongType),
        None => Err(SchemaError::MissingField),
    }
}

/// A required string-encoded `u64` field.
pub open spec fn s_field_u64(fs: Seq<(String, Json)>, key: Seq<char>) -> Result<u64, SchemaError> {
    match spec_obj_get(fs, key) {
        Some(Json::Text(s)) => match spec_parse_u64(s@) {
            Some(n) => Ok(n),
            None => Err(SchemaError::BadValue),
        },
        Some(_) => Err(SchemaError::WrongType),
        None => Err(SchemaError::MissingField),
    }
}

pub fn field_u64(fields: &Vec<(String, Json)>, key: &str) -> (r: Result<u64, SchemaError>)
    ensures
        r == s_field_u64(fields@, key@),
{
    match obj_get(fields, key) {
        Some(Json::Text(s)) => match parse_u64(s.as_str()) {
            Some(n) => Ok(n),
            None => Err(SchemaError::BadValue),
        },
        Some(_) => Err(SchemaError::WrongType),
        None => Err(SchemaError::MissingField),
    }
}

/// A required string-encoded `u32` field.
pub open spec fn s_field_u32(fs: Seq<(String, Json)>, key: Seq<char>) -> Result<u32, SchemaError> {
    match spec_obj_get(fs, key) {
        Some(Json::Text(s)) => match spec_parse_u32(s@) {
            Some(n) => Ok(n),
            None => Err(SchemaError::BadValue),
        },
        Some(_) => Err(SchemaError::WrongType),
        None => Err(SchemaError::MissingField),
    }
}

pub fn field_u32(fields: &Vec<(String, Json)>, key: &str) -> (r: Result<u32, SchemaError>)
    ensures
        r == s_field_u32(fields@, key@),
{
    match obj_get(fields, key) {
        Some(Json::Text(s)) => match parse_u32(s.as_str()) {
            Some(n) => Ok(n),
            None => Err(SchemaError::BadValue),
        },
        Some(_) => Err(SchemaError::WrongType),
        None => Err(SchemaError::MissingField),
    }
}

/// A required string-encoded `i32` field.
pub open spec fn s_field_i32(fs: Seq<(String, Json)>, key: Seq<char>) -> Result<i32, SchemaError> {
    match spec_obj_get(fs, key) {
        Some(Json::Text(s)) => match spec_parse_i32(s@) {
            Some(n) => Ok(n),
            None => Err(SchemaError::BadValue),
        },
        Some(_) => Err(SchemaError::WrongType),
        None => Err(SchemaError::MissingField),
    }
}

pub fn field_i32(fields: &Vec<(String, Json)>, key: &str) -> (r: Result<i32, SchemaError>)
    ensures
        r == s_field_i32(fields@, key@),
{
    match obj_get(fields, key) {
        Some(Json::Text(s)) => match parse_i32(s.as_str()) {
            Some(n) => Ok(n),
            None => Err(SchemaError::BadValue),
        },
        Some(_) => Err(SchemaError::WrongType),
        None => Err(SchemaError::MissingField),
    }
}

/// A required string-encoded boolean field.
pub open spec fn s_field_bool(fs: Seq<(String, Json)>, key: Seq<char>) -> Result<
    bool,
    SchemaError,
> {
    match spec_obj_get(fs, key) {
        Some(Json::Text(s)) => match spec_parse_bool(s@) {
            Some(b) => Ok(b),
            None => Err(SchemaError::BadValue),
        },
        Some(_) => Err(SchemaError::WrongType),
        None => Err(SchemaError::MissingField),
    }
}

pub fn field_bool(fields: &Vec<(String, Json)>, key: &str) -> (r: Result<bool, SchemaError>)
    ensures
        r == s_field_bool(fields@, key@),
{
    match obj_get(fields, key) {
        Some(Json::Text(s)) => match parse_bool(s.as_str()) {
            Some(b) => Ok(b),
            None => Err(SchemaError::BadValue),
        },
        Some(_) => Err(SchemaError::WrongType),
        None => Err(SchemaError::MissingField),
    }
}

/// A required string-encoded fixed-point field.
pub open spec fn s_field_decimal(fs: Seq<(String, Json)>, key: Seq<char>) -> Result<
    Decimal,
    SchemaError,
> {
    match spec_obj_get(fs, key) {
        Some(Json::Text(s)) => match spec_parse_decimal(s@) {
            Some(d) => Ok(d),
            None => Err(SchemaError::BadValue),
        },
        Some(_) => Err(SchemaError::WrongType),
        None => Err(SchemaError::MissingField),
    }
}

pub fn field_decimal(fields: &Vec<(String, Json)>, key: &str) -> (r: Result<Decimal, SchemaError>)
    ensures
        r == s_field_decimal(fields@, key@),
{
    match obj_get(fields, key) {
        Some(Json::Text(s)) => match parse_decimal(s.as_str()) {
            Some(d) => Ok(d),
            None => Err(SchemaError::BadValue),
        },
        Some(_) => Err(SchemaError::WrongType),
        None => Err(SchemaError::MissingField),
    }
}

/// An optional string-encoded `u32` field: absent or `null` is `None`.
pub open spec fn s_field_opt_u32(fs: Seq<(String, Json)>, key: Seq<char>) -> Result<
    Option<u32>,
    SchemaError,
> {
    match spec_obj_get(fs, key) {
        None => Ok(None),
        Some(Json::Null) => Ok(None),
        Some(Json::Text(s)) => match spec_parse_u32(s@) {
            Some(n) => Ok(Some(n)),
            None => Err(SchemaError::BadValue),
        },
        Some(_) => Err(SchemaError::WrongType),
    }
}

pub fn field_opt_u32(fields: &Vec<(String, Json)>, key: &str) -> (r: Result<
    Option<u32>,
    SchemaError,
>)
    ensures
        r == s_field_opt_u32(fields@, key@),
{
    match obj_get(fields, key) {
        None => Ok(None),
        Some(Json::Null) => Ok(None),
        Some(Json::Text(s)) => match parse_u32(s.as_str()) {
            Some(n) => Ok(Some(n)),
            None => Err(SchemaError::BadValue),
        },
        Some(_) => Err(SchemaError::WrongType),
    }
}

/// The first `n` items of a file-reference array, decoded in order; the
/// first failure wins.
pub open spec fn s_fr_seq(items: Seq<Json>, n: int) -> Result<Seq<SpecFileReference>, SchemaError>
    decreases items, n,
{
    if n <= 0 || n > items.len() {
        Ok(Seq::empty())
    } else {
        match s_fr_seq(items, n - 1) {
            Ok(pre) => match spec_decode_file_reference(items[n - 1]) {
                Ok(fr) => Ok(pre.push(fr)),
                Err(e) => Err(e),
            },
            Err(e) => Err(e),
        }
    }
}

/// One file reference: a path, a line, an optional column and a `callsite`
/// chain of further file references, absent for a top-level location.
pub open spec fn spec_decode_file_reference(v: Json) -> Result<SpecFileReference, SchemaError>
    decreases v, 0nat,
    via spec_decode_file_reference_decreases
{
    match v {
        Json::Object(fields) => {
            let file_name = s_field_string(fields@, "filename"@);
            let line = s_field_u32(fields@, "line"@);
            let column_number = s_field_opt_u32(fields@, "column_num"@);
            let callsite = match spec_obj_get(fields@, "callsite"@) {
                None => Ok(Seq::<SpecFileReference>::empty()),
                Some(Json::Array(items)) => s_fr_seq(items@, items@.len() as int),
                Some(_) => Err(SchemaError::WrongType),
            };
            if file_name is Err {
                Err(file_name->Err_0)
            } else if line is Err {
                Err(line->Err_0)
            } else if column_number is Err {
                Err(column_number->Err_0)
            } else if callsite is Err {
                Err(callsite->Err_0)
            } else {
                Ok(
                    SpecFileReference {
                        file_name: file_name->Ok_0,
                        line: line->Ok_0,
                        column_number: column_number->Ok_0,
                        callsite: callsite->Ok_0,
                    },
                )
            }
        },
        _ => Err(SchemaError::WrongType),
    }
}

#[via_fn]
proof fn spec_decode_file_reference_decreases(v: Json) {
    match v {
        Json::Object(fields) => {
            lemma_obj_get_decreases(fields@, "callsite"@);
            assert(decreases_to!(v => fields@));
        },
        _ => {},
    }
}

/// A later element of a file-reference array cannot repair an earlier
/// failure: the error stands whatever follows.
proof fn lemma_s_fr_seq_err(items: Seq<Json>, n: int, m: int)
    requires
        0 <= n <= m <= items.len(),
        s_fr_seq(items, n) is Err,
    ensures
        s_fr_seq(items, m) == s_fr_seq(items, n),
    decreases m - n,
{
    if n < m {
        lemma_s_fr_seq_err(items, n, m - 1);
    }
}

/// Appending to the decoded prefix does not change how its view reads.
proof fn lemma_view_fr_seq_push(s: Seq<FileReference>, x: FileReference, n: int)
    requires
        0 <= n <= s.len(),
    ensures
        view_fr_seq(s.push(x), n) == view_fr_seq(s, n),
    decreases n,
{
    if n > 0 {
        lemma_view_fr_seq_push(s, x, n - 1);
        assert(s.push(x)[n - 1] == s[n - 1]);
    }
}

/// Decodes an array of file references in order.
pub fn decode_fr_array(items: &Vec<Json>) -> (r: Result<Vec<FileReference>, SchemaError>)
    ensures
        match r {
            Ok(frs) => s_fr_seq(items@, items@.len() as int) == Ok::<
                Seq<SpecFileReference>,
                SchemaError,
            >(view_fr_seq(frs@, frs@.len() as int)),
            Err(e) => s_fr_seq(items@, items@.len() as int) == Err::<
                Seq<SpecFileReference>,
                SchemaError,
            >(e),
        },
    decreases items@,
{
    let mut out: Vec<FileReference> = Vec::new();
    let mut i: usize = 0;
    while i < items.len()
        invariant
            0 <= i <= items@.len(),
            out@.len() == i,
            s_fr_seq(items@, i as int) == Ok::<Seq<SpecFileReference>, SchemaError>(
                view_fr_seq(out@, i as int),
            ),
        decreases items@.len() - i,
    {
        let fr = match decode_file_reference(&items[i]) {
            Ok(x) => x,
            Err(e) => {
                proof {
                    lemma_s_fr_seq_err(items@, i + 1, items@.len() as int);
                }
                return Err(e);
            },
        };
        proof {
            lemma_view_fr_seq_push(out@, fr, i as int);
        }
        out.push(fr);
        i += 1;
    }
    Ok(out)
}

/// Decodes one file reference with its recursive callsite chain.
pub fn decode_file_reference(v: &Json) -> (r: Result<FileReference, SchemaError>)
    ensures
        match r {
            Ok(fr) => spec_decode_file_reference(*v) == Ok::<SpecFileReference, SchemaError>(
                view_file_reference(fr),
            ),
            Err(e) => spec_decode_file_reference(*v) == Err::<SpecFileReference, SchemaError>(e),
        },
    decreases *v, 0nat,
{
    match v {
        Json::Object(fields) => {
            let file_name = match field_string(fields, "filename") {
                Ok(s) => s,
                Err(e) => return Err(e),
            };
            let line = match field_u32(fields, "line") {
                Ok(x) => x,
                Err(e) => return Err(e),
            };
            let column_number = match field_opt_u32(fields, "column_num") {
                Ok(x) => x,
                Err(e) => return Err(e),
            };
            let callsite: Vec<FileReference> = match obj_get(fields, "callsite") {
                None => Vec::new(),
                Some(j) => match j {
                    Json::Array(items) => {
                        proof {
                            lemma_obj_get_decreases(fields@, "callsite"@);
                            assert(decreases_to!(*v => fields@));
                            assert(decreases_to!(*j => items@));
                        }
                        match decode_fr_array(items) {
                            Ok(x) => x,
                            Err(e) => return Err(e),
                        }
                    },
                    _ => {
                        return Err(SchemaError::WrongType);
                    },
                },
            };
            Ok(FileReference { file_name, line, column_number, callsite })
        },
        _ => Err(SchemaError::WrongType),
    }
}

/// A field value looked up in an object stands below the object in the
/// well-founded order that recursive decoding descends along.
proof fn lemma_obj_get_decreases(fs: Seq<(String, Json)>, key: Seq<char>)
    ensures
        spec_obj_get(fs, key) matches Some(j) ==> decreases_to!(fs => j),
    decreases fs.len(),
{
    broadcast use vstd::seq::axiom_seq_index_decreases;

    if fs.len() > 0 {
        if fs[0].0@ == key {
            assert(decreases_to!(fs => fs[0]));
            assert(decreases_to!(fs[0] => fs[0].1));
        } else {
            lemma_obj_get_decreases(fs.drop_first(), key);
            if fs.drop_first().len() < fs.len() {
                vstd::seq::axiom_seq_subrange_decreases(fs, 1, fs.len() as int);
                assert(fs.drop_first() == fs.subrange(1, fs.len() as int));
            }
        }
    }
}


/// The first `n` items of an array of string-encoded `u64` values.
pub open spec fn s_u64_seq(items: Seq<Json>, n: int) -> Result<Seq<u64>, SchemaError>
    decreases n,
{
    if n <= 0 || n > items.len() {
        Ok(Seq::empty())
    } else {
        match s_u64_seq(items, n - 1) {
            Ok(pre) => match items[n - 1] {
                Json::Text(s) => match spec_parse_u64(s@) {
                    Some(x) => Ok(pre.push(x)),
                    None => Err(SchemaError::BadValue),
                },
                _ => Err(SchemaError::WrongType),
            },
            Err(e) => Err(e),
        }
    }
}

proof fn lemma_s_u64_seq_err(items: Seq<Json>, n: int, m: int)
    requires
        0 <= n <= m <= items.len(),
        s_u64_seq(items, n) is Err,
    ensures
        s_u64_seq(items, m) == s_u64_seq(items, n),
    decreases m - n,
{
    if n < m {
        lemma_s_u64_seq_err(items, n, m - 1);
    }
}

pub fn decode_u64_array(items: &Vec<Json>) -> (r: Result<Vec<u64>, SchemaError>)
    ensures
        match r {
            Ok(xs) => s_u64_seq(items@, items@.len() as int) == Ok::<Seq<u64>, SchemaError>(xs@),
            Err(e) => s_u64_seq(items@, items@.len() as int) == Err::<Seq<u64>, SchemaError>(e),
        },
{
    let mut out: Vec<u64> = Vec::new();
    let mut i: usize = 0;
    while i < items.len()
        invariant
            0 <= i <= items@.len(),
            s_u64_seq(items@, i as int) == Ok::<Seq<u64>, SchemaError>(out@),
        decreases items@.len() - i,
    {
        match &items[i] {
            Json::Text(s) => match parse_u64(s.as_str()) {
                Some(x) => out.push(x),
                None => {
                    proof {
                        lemma_s_u64_seq_err(items@, i + 1, items@.len() as int);
                    }
                    return Err(SchemaError::BadValue);
                },
            },
            _ => {
                proof {
                    lemma_s_u64_seq_err(items@, i + 1, items@.len() as int);
                }
                return Err(SchemaError::WrongType);
            },
        }
        i += 1;
    }
    Ok(out)
}

/// The first `n` items of an array of string-encoded `u32` values.
pub open spec fn s_u32_seq(items: Seq<Json>, n: int) -> Result<Seq<u32>, SchemaError>
    decreases n,
{
    if n <= 0 || n > items.len() {
        Ok(Seq::empty())
    } else {
        match s_u32_seq(items, n - 1) {
            Ok(pre) => match items[n - 1] {
                Json::Text(s) => match spec_parse_u32(s@) {
                    Some(x) => Ok(pre.push(x)),
                    None => Err(SchemaError::BadValue),
                },
                _ => Err(SchemaError::WrongType),
            },
            Err(e) => Err(e),
        }
    }
}

proof fn lemma_s_u32_seq_err(items: Seq<Json>, n: int, m: int)
    requires
        0 <= n <= m <= items.len(),
        s_u32_seq(items, n) is Err,
    ensures
        s_u32_seq(items, m) == s_u32_seq(items, n),
    decreases m - n,
{
    if n < m {
        lemma_s_u32_seq_err(items, n, m - 1);
    }
}

pub fn decode_u32_array(items: &Vec<Json>) -> (r: Result<Vec<u32>, SchemaError>)
    ensures
        match r {
            Ok(xs) => s_u32_seq(items@, items@.len() as int) == Ok::<Seq<u32>, SchemaError>(xs@),
            Err(e) => s_u32_seq(items@, items@.len() as int) == Err::<Seq<u32>, SchemaError>(e),
        },
{
    let mut out: Vec<u32> = Vec::new();
    let mut i: usize = 0;
    while i < items.len()
        invariant
            0 <= i <= items@.len(),
            s_u32_seq(items@, i as int) == Ok::<Seq<u32>, SchemaError>(out@),
        decreases items@.len() - i,
    {
        match &items[i] {
            Json::Text(s) => match parse_u32(s.as_str()) {
                Some(x) => out.push(x),
                None => {
                    proof {
                        lemma_s_u32_seq_err(items@, i + 1, items@.len() as int);
                    }
                    return Err(SchemaError::BadValue);
                },
            },
            _ => {
                proof {
                    lemma_s_u32_seq_err(items@, i + 1, items@.len() as int);
                }
                return Err(SchemaError::WrongType);
            },
        }
        i += 1;
    }
    Ok(out)
}

/// The first `n` items of an array of string-encoded fixed-point values.
pub open spec fn s_decimal_seq(items: Seq<Json>, n: int) -> Result<Seq<Decimal>, SchemaError>
    decreases n,
{
    if n <= 0 || n > items.len() {
        Ok(Seq::empty())
    } else {
        match s_decimal_seq(items, n - 1) {
            Ok(pre) => match items[n - 1] {
                Json::Text(s) => match spec_parse_decimal(s@) {
                    Some(x) => Ok(pre.push(x)),
                    None => Err(SchemaError::BadValue),
                },
                _ => Err(SchemaError::WrongType),
            },
            Err(e) => Err(e),
        }
    }
}

proof fn lemma_s_decimal_seq_err(items: Seq<Json>, n: int, m: int)
    requires
        0 <= n <= m <= items.len(),
        s_decimal_seq(items, n) is Err,
    ensures
        s_decimal_seq(items, m) == s_decimal_seq(items, n),
    decreases m - n,
{
    if n < m {
        lemma_s_decimal_seq_err(items, n, m - 1);
    }
}

pub fn decode_decimal_array(items: &Vec<Json>) -> (r: Result<Vec<Decimal>, SchemaError>)
    ensures
        match r {
            Ok(xs) => s_decimal_seq(items@, items@.len() as int) == Ok::<
                Seq<Decimal>,
                SchemaError,
            >(xs@),
            Err(e) => s_decimal_seq(items@, items@.len() as int) == Err::<
                Seq<Decimal>,
                SchemaError,
            >(e),
        },
{
    let mut out: Vec<Decimal> = Vec::new();
    let mut i: usize = 0;
    while i < items.len()
        invariant
            0 <= i <= items@.len(),
            s_decimal_seq(items@, i as int) == Ok::<Seq<Decimal>, SchemaError>(out@),
        decreases items@.len() - i,
    {
        match &items[i] {
            Json::Text(s) => match parse_decimal(s.as_str()) {
                Some(x) => out.push(x),
                None => {
                    proof {
                        lemma_s_decimal_seq_err(items@, i + 1, items@.len() as int);
                    }
                    return Err(SchemaError::BadValue);
                },
            },
            _ => {
                proof {
                    lemma_s_decimal_seq_err(items@, i + 1, items@.len() as int);
                }
                return Err(SchemaError::WrongType);
            },
        }
        i += 1;
    }
    Ok(out)
}

/// A required field holding an array of string-encoded `u64` values.
pub open spec fn s_field_u64_array(fs: Seq<(String, Json)>, key: Seq<char>) -> Result<
    Seq<u64>,
    SchemaError,
> {
    match spec_obj_get(fs, key) {
        None => Err(SchemaError::MissingField),
        Some(Json::Array(items)) => s_u64_seq(items@, items@.len() as int),
        Some(_) => Err(SchemaError::WrongType),
    }
}

pub fn field_u64_array(fields: &Vec<(String, Json)>, key: &str) -> (r: Result<
    Vec<u64>,
    SchemaError,
>)
    ensures
        match r {
            Ok(xs) => s_field_u64_array(fields@, key@) == Ok::<Seq<u64>, SchemaError>(xs@),
            Err(e) => s_field_u64_array(fields@, key@) == Err::<Seq<u64>, SchemaError>(e),
        },
{
    match obj_get(fields, key) {
        None => Err(SchemaError::MissingField),
        Some(Json::Array(items)) => decode_u64_array(items),
        Some(_) => Err(SchemaError::WrongType),
    }
}

/// A required field holding an array of string-encoded `u32` values.
pub open spec fn s_field_u32_array(fs: Seq<(String, Json)>, key: Seq<char>) -> Result<
    Seq<u32>,
    SchemaError,
> {
    match spec_obj_get(fs, key) {
        None => Err(SchemaError::MissingField),
        Some(Json::Array(items)) => s_u32_seq(items@, items@.len() as int),
        Some(_) => Err(SchemaError::WrongType),
    }
}

pub fn field_u32_array(fields: &Vec<(String, Json)>, key: &str) -> (r: Result<
    Vec<u32>,
    SchemaError,
>)
    ensures
        match r {
            Ok(xs) => s_field_u32_array(fields@, key@) == Ok::<Seq<u32>, SchemaError>(xs@),
            Err(e) => s_field_u32_array(fields@, key@) == Err::<Seq<u32>, SchemaError>(e),
        },
{
    match obj_get(fields, key) {
        None => Err(SchemaError::MissingField),
        Some(Json::Array(items)) => decode_u32_array(items),
        Some(_) => Err(SchemaError::WrongType),
    }
}

/// As [`s_field_u32_array`], but an absent field is an empty array.
pub open spec fn s_field_u32_array_default(fs: Seq<(String, Json)>, key: Seq<char>) -> Result<
    Seq<u32>,
    SchemaError,
> {
    match spec_obj_get(fs, key) {
        None => Ok(Seq::empty()),
        Some(Json::Array(items)) => s_u32_seq(items@, items@.len() as int),
        Some(_) => Err(SchemaError::WrongType),
    }
}

pub fn field_u32_array_default(fields: &Vec<(String, Json)>, key: &str) -> (r: Result<
    Vec<u32>,
    SchemaError,
>)
    ensures
        match r {
            Ok(xs) => s_field_u32_array_default(fields@, key@) == Ok::<Seq<u32>, SchemaError>(xs@),
            Err(e) => s_field_u32_array_default(fields@, key@) == Err::<Seq<u32>, SchemaError>(e),
        },
{
    match obj_get(fields, key) {
        None => Ok(Vec::new()),
        Some(Json::Array(items)) => decode_u32_array(items),
        Some(_) => Err(SchemaError::WrongType),
    }
}

/// A required field holding an array of string-encoded fixed-point values.
pub open spec fn s_field_decimal_array(fs: Seq<(String, Json)>, key: Seq<char>) -> Result<
    Seq<Decimal>,
    SchemaError,
> {
    match spec_obj_get(fs, key) {
        None => Err(SchemaError::MissingField),
        Some(Json::Array(items)) => s_decimal_seq(items@, items@.len() as int),
        Some(_) => Err(SchemaError::WrongType),
    }
}

pub fn field_decimal_array(fields: &Vec<(String, Json)>, key: &str) -> (r: Result<
    Vec<Decimal>,
    SchemaError,
>)
    ensures
        match r {
            Ok(xs) => s_field_decimal_array(fields@, key@) == Ok::<Seq<Decimal>, SchemaError>(xs@),
            Err(e) => s_field_decimal_array(fields@, key@) == Err::<Seq<Decimal>, SchemaError>(e),
        },
{
    match obj_get(fields, key) {
        None => Err(SchemaError::MissingField),
        Some(Json::Array(items)) => decode_decimal_array(items),
        Some(_) => Err(SchemaError::WrongType),
    }
}

/// As [`s_field_decimal_array`], but an absent field is an empty array.
pub open spec fn s_field_decimal_array_default(fs: Seq<(String, Json)>, key: Seq<char>) -> Result<
    Seq<Decimal>,
    SchemaError,
> {
    match spec_obj_get(fs, key) {
        None => Ok(Seq::empty()),
        Some(Json::Array(items)) => s_decimal_seq(items@, items@.len() as int),
        Some(_) => Err(SchemaError::WrongType),
    }
}

pub fn field_decimal_array_default(fields: &Vec<(String, Json)>, key: &str) -> (r: Result<
    Vec<Decimal>,
    SchemaError,
>)
    ensures
        match r {
            Ok(xs) => s_field_decimal_array_default(fields@, key@) == Ok::<
                Seq<Decimal>,
                SchemaError,
            >(xs@),
            Err(e) => s_field_decimal_array_default(fields@, key@) == Err::<
                Seq<Decimal>,
                SchemaError,
            >(e),
        },
{
    match obj_get(fields, key) {
        None => Ok(Vec::new()),
        Some(Json::Array(items)) => decode_decimal_array(items),
        Some(_) => Err(SchemaError::WrongType),
    }
}

/// A required field holding an array of file references.
pub open spec fn s_field_fr_array(fs: Seq<(String, Json)>, key: Seq<char>) -> Result<
    Seq<SpecFileReference>,
    SchemaError,
> {
    match spec_obj_get(fs, key) {
        None => Err(SchemaError::MissingField),
        Some(Json::Array(items)) => s_fr_seq(items@, items@.len() as int),
        Some(_) => Err(SchemaError::WrongType),
    }
}

pub fn field_fr_array(fields: &Vec<(String, Json)>, key: &str) -> (r: Result<
    Vec<FileReference>,
    SchemaError,
>)
    ensures
        match r {
            Ok(frs) => s_field_fr_array(fields@, key@) == Ok::<Seq<SpecFileReference>, SchemaError>(
                view_fr_seq(frs@, frs@.len() as int),
            ),
            Err(e) => s_field_fr_array(fields@, key@) == Err::<Seq<SpecFileReference>, SchemaError>(
                e,
            ),
        },
{
    match obj_get(fields, key) {
        None => Err(SchemaError::MissingField),
        Some(Json::Array(items)) => decode_fr_array(items),
        Some(_) => Err(SchemaError::WrongType),
    }
}

/// A required operation-direction field: the native string `read` or
/// `write`.
pub open spec fn s_field_operation_type(fs: Seq<(String, Json)>, key: Seq<char>) -> Result<
    OperationType,
    SchemaError,
> {
    match spec_obj_get(fs, key) {
        None => Err(SchemaError::MissingField),
        Some(Json::Text(s)) => {
            if s@ == "read"@ {
                Ok(OperationType::Read)
            } else if s@ == "write"@ {
                Ok(OperationType::Write)
            } else {
                Err(SchemaError::UnknownTag)
            }
        },
        Some(_) => Err(SchemaError::WrongType),
    }
}


pub fn field_operation_type(fields: &Vec<(String, Json)>, key: &str) -> (r: Result<
    OperationType,
    SchemaError,
>)
    ensures
        r == s_field_operation_type(fields@, key@),
{
    match obj_get(fields, key) {
        None => Err(SchemaError::MissingField),
        Some(Json::Text(s)) => {
            if crate::numeric::str_eq(s.as_str(), "read") {
                Ok(OperationType::Read)
            } else if crate::numeric::str_eq(s.as_str(), "write") {
                Ok(OperationType::Write)
            } else {
                Err(SchemaError::UnknownTag)
            }
        },
        Some(_) => Err(SchemaError::WrongType),
    }
}

/// A module-instance sample record of the global-memory kind.
pub open spec fn spec_decode_global(fs: Seq<(String, Json)>) -> Result<SpecGlobal, SchemaError> {
    let operation_type = s_field_operation_type(fs, "operation_type"@);
    let occupancy_samples = s_field_u64_array(fs, "occupancy_samples"@);
    let stall_samples = s_field_u64_array(fs, "stall_samples"@);
    let idle_samples = s_field_u64_array(fs, "idle_samples"@);
    let activity_samples = s_field_u64_array(fs, "activity_samples"@);
    let bandwidth_samples = s_field_decimal_array(fs, "bandwidth_samples"@);
    let bandwidth_effective_samples = s_field_decimal_array(fs, "bandwidth_eff_samples"@);
    let cache_hit_samples = s_field_decimal_array_default(fs, "cache_hit_samples"@);
    let coalesced_memory = s_field_bool(fs, "coalesced_memory"@);
    let global_memory_name = s_field_string(fs, "global_mem_name"@);
    let average_burst_size = s_field_decimal_array(fs, "average_burst_size"@);
    if operation_type is Err {
        Err(operation_type->Err_0)
    } else if occupancy_samples is Err {
        Err(occupancy_samples->Err_0)
    } else if stall_samples is Err {
        Err(stall_samples->Err_0)
    } else if idle_samples is Err {
        Err(idle_samples->Err_0)
    } else if activity_samples is Err {
        Err(activity_samples->Err_0)
    } else if bandwidth_samples is Err {
        Err(bandwidth_samples->Err_0)
    } else if bandwidth_effective_samples is Err {
        Err(bandwidth_effective_samples->Err_0)
    } else if cache_hit_samples is Err {
        Err(cache_hit_samples->Err_0)
    } else if coalesced_memory is Err {
        Err(coalesced_memory->Err_0)
    } else if global_memory_name is Err {
        Err(global_memory_name->Err_0)
    } else if average_burst_size is Err {
        Err(average_burst_size->Err_0)
    } else {
        Ok(
            SpecGlobal {
                operation_type: operation_type->Ok_0,
                occupancy_samples: occupancy_samples->Ok_0,
                stall_samples: stall_samples->Ok_0,
                idle_samples: idle_samples->Ok_0,
                activity_samples: activity_samples->Ok_0,
                bandwidth_samples: bandwidth_samples->Ok_0,
                bandwidth_effective_samples: bandwidth_effective_samples->Ok_0,
                cache_hit_samples: cache_hit_samples->Ok_0,
                coalesced_memory: coalesced_memory->Ok_0,
                global_memory_name: global_memory_name->Ok_0,
                average_burst_size: average_burst_size->Ok_0,
            },
        )
    }
}

pub fn decode_global(fields: &Vec<(String, Json)>) -> (r: Result<Global, SchemaError>)
    ensures
        match r {
            Ok(g) => spec_decode_global(fields@) == Ok::<SpecGlobal, SchemaError>(view_global(g)),
            Err(e) => spec_decode_global(fields@) == Err::<SpecGlobal, SchemaError>(e),
        },
{
    let operation_type = match field_operation_type(fields, "operation_type") {
        Ok(x) => x,
        Err(e) => return Err(e),
    };
    let occupancy_samples = match field_u64_array(fields, "occupancy_samples") {
        Ok(x) => x,
        Err(e) => return Err(e),
    };
    let stall_samples = match field_u64_array(fields, "stall_samples") {
        Ok(x) => x,
        Err(e) => return Err(e),
    };
    let idle_samples = match field_u64_array(fields, "idle_samples") {
        Ok(x) => x,
        Err(e) => return Err(e),
    };
    let activity_samples = match field_u64_array(fields, "activity_samples") {
        Ok(x) => x,
        Err(e) => return Err(e),
    };
    let bandwidth_samples = match field_decimal_array(fields, "bandwidth_samples") {
        Ok(x) => x,
        Err(e) => return Err(e),
    };
    let bandwidth_effective_samples = match field_decimal_array(fields, "bandwidth_eff_samples") {
        Ok(x) => x,
        Err(e) => return Err(e),
    };
    let cache_hit_samples = match field_decimal_array_default(fields, "cache_hit_samples") {
        Ok(x) => x,
        Err(e) => return Err(e),
    };
    let coalesced_memory = match field_bool(fields, "coalesced_memory") {
        Ok(x) => x,
        Err(e) => return Err(e),
    };
    let global_memory_name = match field_string(fields, "global_mem_name") {
        Ok(x) => x,
        Err(e) => return Err(e),
    };
    let average_burst_size = match field_decimal_array(fields, "average_burst_size") {
        Ok(x) => x,
        Err(e) => return Err(e),
    };
    Ok(
        Global {
            operation_type,
            occupancy_samples,
            stall_samples,
            idle_samples,
            activity_samples,
            bandwidth_samples,
            bandwidth_effective_samples,
            cache_hit_samples,
            coalesced_memory,
            global_memory_name,
            average_burst_size,
        },
    )
}

/// A module-instance sample record of the local-memory kind.
pub open spec fn spec_decode_local(fs: Seq<(String, Json)>) -> Result<SpecLocal, SchemaError> {
    let operation_type = s_field_operation_type(fs, "operation_type"@);
    let occupancy_samples = s_field_u64_array(fs, "occupancy_samples"@);
    let stall_samples = s_field_u64_array(fs, "stall_samples"@);
    let idle_samples = s_field_u64_array(fs, "idle_samples"@);
    let activity_samples = s_field_u64_array(fs, "activity_samples"@);
    let coalesced_memory = s_field_bool(fs, "coalesced_memory"@);
    if operation_type is Err {
        Err(operation_type->Err_0)
    } else if occupancy_samples is Err {
        Err(occupancy_samples->Err_0)
    } else if stall_samples is Err {
        Err(stall_samples->Err_0)
    } else if idle_samples is Err {
        Err(idle_samples->Err_0)
    } else if activity_samples is Err {
        Err(activity_samples->Err_0)
    } else if coalesced_memory is Err {
        Err(coalesced_memory->Err_0)
    } else {
        Ok(
            SpecLocal {
                operation_type: operation_type->Ok_0,
                occupancy_samples: occupancy_samples->Ok_0,
                stall_samples: stall_samples->Ok_0,
                idle_samples: idle_samples->Ok_0,
                activity_samples: activity_samples->Ok_0,
                coalesced_memory: coalesced_memory->Ok_0,
            },
        )
    }
}

pub fn decode_local(fields: &Vec<(String, Json)>) -> (r: Result<Local, SchemaError>)
    ensures
        match r {
            Ok(l) => spec_decode_local(fields@) == Ok::<SpecLocal, SchemaError>(view_local(l)),
            Err(e) => spec_decode_local(fields@) == Err::<SpecLocal, SchemaError>(e),
        },
{
    let operation_type = match field_operation_type(fields, "operation_type") {
        Ok(x) => x,
        Err(e) => return Err(e),
    };
    let occupancy_samples = match field_u64_array(fields, "occupancy_samples") {
        Ok(x) => x,
        Err(e) => return Err(e),
    };
    let stall_samples = match field_u64_array(fields, "stall_samples") {
        Ok(x) => x,
        Err(e) => return Err(e),
    };
    let idle_samples = match field_u64_array(fields, "idle_samples") {
        Ok(x) => x,
        Err(e) => return Err(e),
    };
    let activity_samples = match field_u64_array(fields, "activity_samples") {
        Ok(x) => x,
        Err(e) => return Err(e),
    };
    let coalesced_memory = match field_bool(fields, "coalesced_memory") {
        Ok(x) => x,
        Err(e) => return Err(e),
    };
    Ok(
        Local {
            operation_type,
            occupancy_samples,
            stall_samples,
            idle_samples,
            activity_samples,
            coalesced_memory,
        },
    )
}

/// A module-instance sample record of the channel kind.
pub open spec fn spec_decode_channel(fs: Seq<(String, Json)>) -> Result<SpecChannel, SchemaError> {
    let operation_type = s_field_operation_type(fs, "operation_type"@);
    let occupancy_samples = s_field_u64_array(fs, "occupancy_samples"@);
    let stall_samples = s_field_u64_array(fs, "stall_samples"@);
    let idle_samples = s_field_u64_array(fs, "idle_samples"@);
    let average_channel_depth_samples = s_field_decimal_array(
        fs,
        "average_channel_depth_samples"@,
    );
    let maximum_channel_depth_samples = s_field_u32_array(fs, "max_channel_depth_samples"@);
    let activity_samples = s_field_u64_array(fs, "activity_samples"@);
    let bandwidth_samples = s_field_decimal_array(fs, "bandwidth_samples"@);
    let coalesced_memory = s_field_bool(fs, "coalesced_memory"@);
    if operation_type is Err {
        Err(operation_type->Err_0)
    } else if occupancy_samples is Err {
        Err(occupancy_samples->Err_0)
    } else if stall_samples is Err {
        Err(stall_samples->Err_0)
    } else if idle_samples is Err {
        Err(idle_samples->Err_0)
    } else if average_channel_depth_samples is Err {
        Err(average_channel_depth_samples->Err_0)
    } else if maximum_channel_depth_samples is Err {
        Err(maximum_channel_depth_samples->Err_0)
    } else if activity_samples is Err {
        Err(activity_samples->Err_0)
    } else if bandwidth_samples is Err {
        Err(bandwidth_samples->Err_0)
    } else if coalesced_memory is Err {
        Err(coalesced_memory->Err_0)
    } else {
        Ok(
            SpecChannel {
                operation_type: operation_type->Ok_0,
                occupancy_samples: occupancy_samples->Ok_0,
                stall_samples: stall_samples->Ok_0,
                idle_samples: idle_samples->Ok_0,
                average_channel_depth_samples: average_channel_depth_samples->Ok_0,
                maximum_channel_depth_samples: maximum_channel_depth_samples->Ok_0,
                activity_samples: activity_samples->Ok_0,
                bandwidth_samples: bandwidth_samples->Ok_0,
                coalesced_memory: coalesced_memory->Ok_0,
            },
        )
    }
}

pub fn decode_channel(fields: &Vec<(String, Json)>) -> (r: Result<Channel, SchemaError>)
    ensures
        match r {
            Ok(c) => spec_decode_channel(fields@) == Ok::<SpecChannel, SchemaError>(
                view_channel(c),
            ),
            Err(e) => spec_decode_channel(fields@) == Err::<SpecChannel, SchemaError>(e),
        },
{
    let operation_type = match field_operation_type(fields, "operation_type") {
        Ok(x) => x,
        Err(e) => return Err(e),
    };
    let occupancy_samples = match field_u64_array(fields, "occupancy_samples") {
        Ok(x) => x,
        Err(e) => return Err(e),
    };
    let stall_samples = match field_u64_array(fields, "stall_samples") {
        Ok(x) => x,
        Err(e) => return Err(e),
    };
    let idle_samples = match field_u64_array(fields, "idle_samples") {
        Ok(x) => x,
        Err(e) => return Err(e),
    };
    let average_channel_depth_samples = match field_decimal_array(
        fields,
        "average_channel_depth_samples",
    ) {
        Ok(x) => x,
        Err(e) => return Err(e),
    };
    let maximum_channel_depth_samples = match field_u32_array(fields, "max_channel_depth_samples") {
        Ok(x) => x,
        Err(e) => return Err(e),
    };
    let activity_samples = match field_u64_array(fields, "activity_samples") {
        Ok(x) => x,
        Err(e) => return Err(e),
    };
    let bandwidth_samples = match field_decimal_array(fields, "bandwidth_samples") {
        Ok(x) => x,
        Err(e) => return Err(e),
    };
    let coalesced_memory = match field_bool(fields, "coalesced_memory") {
        Ok(x) => x,
        Err(e) => return Err(e),
    };
    Ok(
        Channel {
            operation_type,
            occupancy_samples,
            stall_samples,
            idle_samples,
            average_channel_depth_samples,
            maximum_channel_depth_samples,
            activity_samples,
            bandwidth_samples,
            coalesced_memory,
        },
    )
}

/// A module-instance sample record of the loop kind.
pub open spec fn spec_decode_loop(fs: Seq<(String, Json)>) -> Result<SpecLoop, SchemaError> {
    let occupancy_samples = s_field_u64_array(fs, "occupancy_samples"@);
    if occupancy_samples is Err {
        Err(occupancy_samples->Err_0)
    } else {
        Ok(SpecLoop { occupancy_samples: occupancy_samples->Ok_0 })
    }
}

pub fn decode_loop(fields: &Vec<(String, Json)>) -> (r: Result<Loop, SchemaError>)
    ensures
        match r {
            Ok(l) => spec_decode_loop(fields@) == Ok::<SpecLoop, SchemaError>(view_loop(l)),
            Err(e) => spec_decode_loop(fields@) == Err::<SpecLoop, SchemaError>(e),
        },
{
    let occupancy_samples = match field_u64_array(fields, "occupancy_samples") {
        Ok(x) => x,
        Err(e) => return Err(e),
    };
    Ok(Loop { occupancy_samples })
}

/// The sample-kind union, selected by the `mem_type` tag.
pub open spec fn spec_decode_details(v: Json) -> Result<SpecModuleInstanceDetails, SchemaError> {
    match v {
        Json::Object(fields) => match spec_obj_get(fields@, "mem_type"@) {
            None => Err(SchemaError::MissingField),
            Some(Json::Text(s)) => {
                if s@ == "__global"@ {
                    match spec_decode_global(fields@) {
                        Ok(g) => Ok(SpecModuleInstanceDetails::Global(g)),
                        Err(e) => Err(e),
                    }
                } else if s@ == "__local"@ {
                    match spec_decode_local(fields@) {
                        Ok(l) => Ok(SpecModuleInstanceDetails::Local(l)),
                        Err(e) => Err(e),
                    }
                } else if s@ == "__channel"@ {
                    match spec_decode_channel(fields@) {
                        Ok(c) => Ok(SpecModuleInstanceDetails::Channel(c)),
                        Err(e) => Err(e),
                    }
                } else if s@ == "__loop"@ {
                    match spec_decode_loop(fields@) {
                        Ok(l) => Ok(SpecModuleInstanceDetails::Loop(l)),
                        Err(e) => Err(e),
                    }
                } else {
                    Err(SchemaError::UnknownTag)
                }
            },
            Some(_) => Err(SchemaError::WrongType),
        },
        _ => Err(SchemaError::WrongType),
    }
}

pub fn decode_details(v: &Json) -> (r: Result<ModuleInstanceDetails, SchemaError>)
    ensures
        match r {
            Ok(d) => spec_decode_details(*v) == Ok::<SpecModuleInstanceDetails, SchemaError>(
                view_details(d),
            ),
            Err(e) => spec_decode_details(*v) == Err::<SpecModuleInstanceDetails, SchemaError>(e),
        },
{
    match v {
        Json::Object(fields) => match obj_get(fields, "mem_type") {
            None => Err(SchemaError::MissingField),
            Some(Json::Text(s)) => {
                if crate::numeric::str_eq(s.as_str(), "__global") {
                    match decode_global(fields) {
                        Ok(g) => Ok(ModuleInstanceDetails::Global(g)),
                        Err(e) => Err(e),
                    }
                } else if crate::numeric::str_eq(s.as_str(), "__local") {
                    match decode_local(fields) {
                        Ok(l) => Ok(ModuleInstanceDetails::Local(l)),
                        Err(e) => Err(e),
                    }
                } else if crate::numeric::str_eq(s.as_str(), "__channel") {
                    match decode_channel(fields) {
                        Ok(c) => Ok(ModuleInstanceDetails::Channel(c)),
                        Err(e) => Err(e),
                    }
                } else if crate::numeric::str_eq(s.as_str(), "__loop") {
                    match decode_loop(fields) {
                        Ok(l) => Ok(ModuleInstanceDetails::Loop(l)),
                        Err(e) => Err(e),
                    }
                } else {
                    Err(SchemaError::UnknownTag)
                }
            },
            Some(_) => Err(SchemaError::WrongType),
        },
        _ => Err(SchemaError::WrongType),
    }
}

/// One module instance: a name, its source-attribution chain and its
/// sample-kind record.
pub open spec fn spec_decode_module_instance(fs: Seq<(String, Json)>) -> Result<
    SpecModuleInstance,
    SchemaError,
> {
    let name = s_field_string(fs, "name"@);
    let source_files = s_field_fr_array(fs, "sourcefiles"@);
    let details = match spec_obj_get(fs, "module_inst_details"@) {
        None => Err(SchemaError::MissingField),
        Some(v) => spec_decode_details(v),
    };
    if name is Err {
        Err(name->Err_0)
    } else if source_files is Err {
        Err(source_files->Err_0)
    } else if details is Err {
        Err(details->Err_0)
    } else {
        Ok(
            SpecModuleInstance {
                name: name->Ok_0,
                source_files: source_files->Ok_0,
                module_instance_details: details->Ok_0,
            },
        )
    }
}

pub fn decode_module_instance(fields: &Vec<(String, Json)>) -> (r: Result<
    ModuleInstance,
    SchemaError,
>)
    ensures
        match r {
            Ok(m) => spec_decode_module_instance(fields@) == Ok::<SpecModuleInstance, SchemaError>(
                view_module_instance(m),
            ),
            Err(e) => spec_decode_module_instance(fields@) == Err::<
                SpecModuleInstance,
                SchemaError,
            >(e),
        },
{
    let name = match field_string(fields, "name") {
        Ok(x) => x,
        Err(e) => return Err(e),
    };
    let source_files = match field_fr_array(fields, "sourcefiles") {
        Ok(x) => x,
        Err(e) => return Err(e),
    };
    let module_instance_details = match obj_get(fields, "module_inst_details") {
        None => return Err(SchemaError::MissingField),
        Some(v) => match decode_details(v) {
            Ok(d) => d,
            Err(e) => return Err(e),
        },
    };
    Ok(ModuleInstance { name, source_files, module_instance_details })
}

/// A board-level global-memory capability record.
pub open spec fn spec_decode_global_memory(fs: Seq<(String, Json)>) -> Result<
    GlobalMemory,
    SchemaError,
> {
    let global_memory_name = s_field_string(fs, "global_memory_name"@);
    let bandwidth = s_field_decimal(fs, "max_theoretical_globalmem_bw"@);
    let burst = s_field_decimal(fs, "max_burst_count"@);
    if global_memory_name is Err {
        Err(global_memory_name->Err_0)
    } else if bandwidth is Err {
        Err(bandwidth->Err_0)
    } else if burst is Err {
        Err(burst->Err_0)
    } else {
        Ok(
            GlobalMemory {
                global_memory_name: global_memory_name->Ok_0,
                maximum_theoretical_global_memory_bandwidth: bandwidth->Ok_0,
                maximum_burst_count: burst->Ok_0,
            },
        )
    }
}

pub fn decode_global_memory(fields: &Vec<(String, Json)>) -> (r: Result<
    GlobalMemory,
    SchemaError,
>)
    ensures
        r == spec_decode_global_memory(fields@),
{
    let global_memory_name = match field_string(fields, "global_memory_name") {
        Ok(x) => x,
        Err(e) => return Err(e),
    };
    let maximum_theoretical_global_memory_bandwidth = match field_decimal(
        fields,
        "max_theoretical_globalmem_bw",
    ) {
        Ok(x) => x,
        Err(e) => return Err(e),
    };
    let maximum_burst_count = match field_decimal(fields, "max_burst_count") {
        Ok(x) => x,
        Err(e) => return Err(e),
    };
    Ok(
        GlobalMemory {
            global_memory_name,
            maximum_theoretical_global_memory_bandwidth,
            maximum_burst_count,
        },
    )
}

/// One external-memory port record.
pub open spec fn spec_decode_external_memory(fs: Seq<(String, Json)>) -> Result<
    SpecExternalMemory,
    SchemaError,
> {
    let name = s_field_string(fs, "name"@);
    let interface = s_field_string(fs, "interface"@);
    let port = s_field_string(fs, "port"@);
    let global_used_bandwidth = s_field_decimal_array(fs, "global_used_bw"@);
    let average_write_burst = s_field_decimal_array(fs, "avg_write_burst"@);
    let average_read_burst = s_field_decimal_array(fs, "avg_read_burst"@);
    if name is Err {
        Err(name->Err_0)
    } else if interface is Err {
        Err(interface->Err_0)
    } else if port is Err {
        Err(port->Err_0)
    } else if global_used_bandwidth is Err {
        Err(global_used_bandwidth->Err_0)
    } else if average_write_burst is Err {
        Err(average_write_burst->Err_0)
    } else if average_read_burst is Err {
        Err(average_read_burst->Err_0)
    } else {
        Ok(
            SpecExternalMemory {
                name: name->Ok_0,
                interface: interface->Ok_0,
                port: port->Ok_0,
                global_used_bandwidth: global_used_bandwidth->Ok_0,
                average_write_burst: average_write_burst->Ok_0,
                average_read_burst: average_read_burst->Ok_0,
            },
        )
    }
}

pub fn decode_external_memory(fields: &Vec<(String, Json)>) -> (r: Result<
    ExternalMemory,
    SchemaError,
>)
    ensures
        match r {
            Ok(m) => spec_decode_external_memory(fields@) == Ok::<SpecExternalMemory, SchemaError>(
                view_external_memory(m),
            ),
            Err(e) => spec_decode_external_memory(fields@) == Err::<
                SpecExternalMemory,
                SchemaError,
            >(e),
        },
{
    let name = match field_string(fields, "name") {
        Ok(x) => x,
        Err(e) => return Err(e),
    };
    let interface = match field_string(fields, "interface") {
        Ok(x) => x,
        Err(e) => return Err(e),
    };
    let port = match field_string(fields, "port") {
        Ok(x) => x,
        Err(e) => return Err(e),
    };
    let global_used_bandwidth = match field_decimal_array(fields, "global_used_bw") {
        Ok(x) => x,
        Err(e) => return Err(e),
    };
    let average_write_burst = match field_decimal_array(fields, "avg_write_burst") {
        Ok(x) => x,
        Err(e) => return Err(e),
    };
    let average_read_burst = match field_decimal_array(fields, "avg_read_burst") {
        Ok(x) => x,
        Err(e) => return Err(e),
    };
    Ok(
        ExternalMemory {
            name,
            interface,
            port,
            global_used_bandwidth,
            average_write_burst,
            average_read_burst,
        },
    )
}

/// A kernel- or board-level child, selected by its `type` tag.
pub open spec fn spec_decode_child(v: Json) -> Result<SpecChild, SchemaError> {
    match v {
        Json::Object(fields) => match spec_obj_get(fields@, "type"@) {
            None => Err(SchemaError::MissingField),
            Some(Json::Text(s)) => {
                if s@ == "moduleinst"@ {
                    match spec_decode_module_instance(fields@) {
                        Ok(m) => Ok(SpecChild::ModuleInstance(m)),
                        Err(e) => Err(e),
                    }
                } else if s@ == "globalmem"@ {
                    match spec_decode_global_memory(fields@) {
                        Ok(g) => Ok(SpecChild::GlobalMemory(g)),
                        Err(e) => Err(e),
                    }
                } else if s@ == "extmem"@ {
                    match spec_decode_external_memory(fields@) {
                        Ok(m) => Ok(SpecChild::ExternalMemory(m)),
                        Err(e) => Err(e),
                    }
                } else {
                    Err(SchemaError::UnknownTag)
                }
            },
            Some(_) => Err(SchemaError::WrongType),
        },
        _ => Err(SchemaError::WrongType),
    }
}

pub fn decode_child(v: &Json) -> (r: Result<Child, SchemaError>)
    ensures
        match r {
            Ok(c) => spec_decode_child(*v) == Ok::<SpecChild, SchemaError>(view_child(c)),
            Err(e) => spec_decode_child(*v) == Err::<SpecChild, SchemaError>(e),
        },
{
    match v {
        Json::Object(fields) => match obj_get(fields, "type") {
            None => Err(SchemaError::MissingField),
            Some(Json::Text(s)) => {
                if crate::numeric::str_eq(s.as_str(), "moduleinst") {
                    match decode_module_instance(fields) {
                        Ok(m) => Ok(Child::ModuleInstance(m)),
                        Err(e) => Err(e),
                    }
                } else if crate::numeric::str_eq(s.as_str(), "globalmem") {
                    match decode_global_memory(fields) {
                        Ok(g) => Ok(Child::GlobalMemory(g)),
                        Err(e) => Err(e),
                    }
                } else if crate::numeric::str_eq(s.as_str(), "extmem") {
                    match decode_external_memory(fields) {
                        Ok(m) => Ok(Child::ExternalMemory(m)),
                        Err(e) => Err(e),
                    }
                } else {
                    Err(SchemaError::UnknownTag)
                }
            },
            Some(_) => Err(SchemaError::WrongType),
        },
        _ => Err(SchemaError::WrongType),
    }
}

/// The first `n` items of a children array, decoded in order.
pub open spec fn s_child_seq(items: Seq<Json>, n: int) -> Result<Seq<SpecChild>, SchemaError>
    decreases n,
{
    if n <= 0 || n > items.len() {
        Ok(Seq::empty())
    } else {
        match s_child_seq(items, n - 1) {
            Ok(pre) => match spec_decode_child(items[n - 1]) {
                Ok(c) => Ok(pre.push(c)),
                Err(e) => Err(e),
            },
            Err(e) => Err(e),
        }
    }
}

proof fn lemma_s_child_seq_err(items: Seq<Json>, n: int, m: int)
    requires
        0 <= n <= m <= items.len(),
        s_child_seq(items, n) is Err,
    ensures
        s_child_seq(items, m) == s_child_seq(items, n),
    decreases m - n,
{
    if n < m {
        lemma_s_child_seq_err(items, n, m - 1);
    }
}

proof fn lemma_view_child_seq_push(s: Seq<Child>, c: Child)
    ensures
        view_child_seq(s.push(c)) == view_child_seq(s).push(view_child(c)),
{
    assert(view_child_seq(s.push(c)) =~= view_child_seq(s).push(view_child(c)));
}

#[verifier::rlimit(50)]
pub fn decode_child_array(items: &Vec<Json>) -> (r: Result<Vec<Child>, SchemaError>)
    ensures
        match r {
            Ok(cs) => s_child_seq(items@, items@.len() as int) == Ok::<Seq<SpecChild>, SchemaError>(
                view_child_seq(cs@),
            ),
            Err(e) => s_child_seq(items@, items@.len() as int) == Err::<
                Seq<SpecChild>,
                SchemaError,
            >(e),
        },
{
    let mut out: Vec<Child> = Vec::new();
    let mut i: usize = 0;
    proof {
        assert(view_child_seq(out@) =~= Seq::<SpecChild>::empty());
    }
    while i < items.len()
        invariant
            0 <= i <= items@.len(),
            s_child_seq(items@, i as int) == Ok::<Seq<SpecChild>, SchemaError>(
                view_child_seq(out@),
            ),
        decreases items@.len() - i,
    {
        let c = match decode_child(&items[i]) {
            Ok(x) => x,
            Err(e) => {
                proof {
                    lemma_s_child_seq_err(items@, i + 1, items@.len() as int);
                }
                return Err(e);
            },
        };
        proof {
            lemma_view_child_seq_push(out@, c);
        }
        out.push(c);
        i += 1;
    }
    Ok(out)
}

/// A required field holding an array of children.
pub open spec fn s_field_child_array(fs: Seq<(String, Json)>, key: Seq<char>) -> Result<
    Seq<SpecChild>,
    SchemaError,
> {
    match spec_obj_get(fs, key) {
        None => Err(SchemaError::MissingField),
        Some(Json::Array(items)) => s_child_seq(items@, items@.len() as int),
        Some(_) => Err(SchemaError::WrongType),
    }
}

pub fn field_child_array(fields: &Vec<(String, Json)>, key: &str) -> (r: Result<
    Vec<Child>,
    SchemaError,
>)
    ensures
        match r {
            Ok(cs) => s_field_child_array(fields@, key@) == Ok::<Seq<SpecChild>, SchemaError>(
                view_child_seq(cs@),
            ),
            Err(e) => s_field_child_array(fields@, key@) == Err::<Seq<SpecChild>, SchemaError>(e),
        },
{
    match obj_get(fields, key) {
        None => Err(SchemaError::MissingField),
        Some(Json::Array(items)) => decode_child_array(items),
        Some(_) => Err(SchemaError::WrongType),
    }
}

/// One compiled kernel invocation.
pub open spec fn spec_decode_kernel(fs: Seq<(String, Json)>) -> Result<SpecKernel, SchemaError> {
    let name = s_field_string(fs, "name"@);
    let compute_unit = s_field_u32(fs, "compute_unit"@);
    let source_file = match spec_obj_get(fs, "sourcefile"@) {
        None => Err(SchemaError::MissingField),
        Some(v) => spec_decode_file_reference(v),
    };
    let device_ids = s_field_u32_array(fs, "device_ids"@);
    let command_queue_ids = s_field_u32_array_default(fs, "command_queue_ids"@);
    let start_time = s_field_u64(fs, "start_time"@);
    let end_time = s_field_u64(fs, "end_time"@);
    let num_samples = s_field_u32(fs, "num_samples"@);
    let shared_counter_run_type = s_field_i32(fs, "shared_counter_run_type"@);
    let sample_timestamps = s_field_u64_array(fs, "sample_timestamps"@);
    let total_cycles_between_samples = s_field_u64_array(fs, "total_cycles_between_samples"@);
    let is_autorun = s_field_bool(fs, "is_autorun"@);
    let children = s_field_child_array(fs, "children"@);
    if name is Err {
        Err(name->Err_0)
    } else if compute_unit is Err {
        Err(compute_unit->Err_0)
    } else if source_file is Err {
        Err(source_file->Err_0)
    } else if device_ids is Err {
        Err(device_ids->Err_0)
    } else if command_queue_ids is Err {
        Err(command_queue_ids->Err_0)
    } else if start_time is Err {
        Err(start_time->Err_0)
    } else if end_time is Err {
        Err(end_time->Err_0)
    } else if num_samples is Err {
        Err(num_samples->Err_0)
    } else if shared_counter_run_type is Err {
        Err(shared_counter_run_type->Err_0)
    } else if sample_timestamps is Err {
        Err(sample_timestamps->Err_0)
    } else if total_cycles_between_samples is Err {
        Err(total_cycles_between_samples->Err_0)
    } else if is_autorun is Err {
        Err(is_autorun->Err_0)
    } else if children is Err {
        Err(children->Err_0)
    } else {
        Ok(
            SpecKernel {
                name: name->Ok_0,
                compute_unit: compute_unit->Ok_0,
                source_file: source_file->Ok_0,
                device_ids: device_ids->Ok_0,
                command_queue_ids: command_queue_ids->Ok_0,
                start_time: start_time->Ok_0,
                end_time: end_time->Ok_0,
                num_samples: num_samples->Ok_0,
                shared_counter_run_type: shared_counter_run_type->Ok_0,
                sample_timestamps: sample_timestamps->Ok_0,
                total_cycles_between_samples: total_cycles_between_samples->Ok_0,
                is_autorun: is_autorun->Ok_0,
                children: children->Ok_0,
            },
        )
    }
}

pub fn decode_kernel(fields: &Vec<(String, Json)>) -> (r: Result<Kernel, SchemaError>)
    ensures
        match r {
            Ok(k) => spec_decode_kernel(fields@) == Ok::<SpecKernel, SchemaError>(view_kernel(k)),
            Err(e) => spec_decode_kernel(fields@) == Err::<SpecKernel, SchemaError>(e),
        },
{
    let name = match field_string(fields, "name") {
        Ok(x) => x,
        Err(e) => return Err(e),
    };
    let compute_unit = match field_u32(fields, "compute_unit") {
        Ok(x) => x,
        Err(e) => return Err(e),
    };
    let source_file = match obj_get(fields, "sourcefile") {
        None => return Err(SchemaError::MissingField),
        Some(v) => match decode_file_reference(v) {
            Ok(f) => f,
            Err(e) => return Err(e),
        },
    };
    let device_ids = match field_u32_array(fields, "device_ids") {
        Ok(x) => x,
        Err(e) => return Err(e),
    };
    let command_queue_ids = match field_u32_array_default(fields, "command_queue_ids") {
        Ok(x) => x,
        Err(e) => return Err(e),
    };
    let start_time = match field_u64(fields, "start_time") {
        Ok(x) => x,
        Err(e) => return Err(e),
    };
    let end_time = match field_u64(fields, "end_time") {
        Ok(x) => x,
        Err(e) => return Err(e),
    };
    let num_samples = match field_u32(fields, "num_samples") {
        Ok(x) => x,
        Err(e) => return Err(e),
    };
    let shared_counter_run_type = match field_i32(fields, "shared_counter_run_type") {
        Ok(x) => x,
        Err(e) => return Err(e),
    };
    let sample_timestamps = match field_u64_array(fields, "sample_timestamps") {
        Ok(x) => x,
        Err(e) => return Err(e),
    };
    let total_cycles_between_samples = match field_u64_array(
        fields,
        "total_cycles_between_samples",
    ) {
        Ok(x) => x,
        Err(e) => return Err(e),
    };
    let is_autorun = match field_bool(fields, "is_autorun") {
        Ok(x) => x,
        Err(e) => return Err(e),
    };
    let children = match field_child_array(fields, "children") {
        Ok(x) => x,
        Err(e) => return Err(e),
    };
    Ok(
        Kernel {
            name,
            compute_unit,
            source_file,
            device_ids,
            command_queue_ids,
            start_time,
            end_time,
            num_samples,
            shared_counter_run_type,
            sample_timestamps,
            total_cycles_between_samples,
            is_autorun,
            children,
        },
    )
}

/// One board record.
pub open spec fn spec_decode_board(fs: Seq<(String, Json)>) -> Result<SpecBoard, SchemaError> {
    let board_type = s_field_string(fs, "board_type"@);
    let children = s_field_child_array(fs, "children"@);
    if board_type is Err {
        Err(board_type->Err_0)
    } else if children is Err {
        Err(children->Err_0)
    } else {
        Ok(SpecBoard { board_type: board_type->Ok_0, children: children->Ok_0 })
    }
}

pub fn decode_board(fields: &Vec<(String, Json)>) -> (r: Result<Board, SchemaError>)
    ensures
        match r {
            Ok(b) => spec_decode_board(fields@) == Ok::<SpecBoard, SchemaError>(
                SpecBoard { board_type: b.board_type, children: view_child_seq(b.children@) },
            ),
            Err(e) => spec_decode_board(fields@) == Err::<SpecBoard, SchemaError>(e),
        },
{
    let board_type = match field_string(fields, "board_type") {
        Ok(x) => x,
        Err(e) => return Err(e),
    };
    let children = match field_child_array(fields, "children") {
        Ok(x) => x,
        Err(e) => return Err(e),
    };
    Ok(Board { board_type, children })
}

/// One memory-transfer record.
pub open spec fn spec_decode_memory_transfers(fs: Seq<(String, Json)>) -> Result<
    MemoryTransfers,
    SchemaError,
> {
    let type_transfer = s_field_string(fs, "type_transfer"@);
    let device_id = s_field_u32(fs, "device_id"@);
    let command_queue_id = s_field_u32(fs, "command_queue_id"@);
    let start_time = s_field_u64(fs, "start_time"@);
    let end_time = s_field_u64(fs, "end_time"@);
    if type_transfer is Err {
        Err(type_transfer->Err_0)
    } else if device_id is Err {
        Err(device_id->Err_0)
    } else if command_queue_id is Err {
        Err(command_queue_id->Err_0)
    } else if start_time is Err {
        Err(start_time->Err_0)
    } else if end_time is Err {
        Err(end_time->Err_0)
    } else {
        Ok(
            MemoryTransfers {
                type_transfer: type_transfer->Ok_0,
                device_id: device_id->Ok_0,
                command_queue_id: command_queue_id->Ok_0,
                start_time: start_time->Ok_0,
                end_time: end_time->Ok_0,
            },
        )
    }
}

pub fn decode_memory_transfers(fields: &Vec<(String, Json)>) -> (r: Result<
    MemoryTransfers,
    SchemaError,
>)
    ensures
        r == spec_decode_memory_transfers(fields@),
{
    let type_transfer = match field_string(fields, "type_transfer") {
        Ok(x) => x,
        Err(e) => return Err(e),
    };
    let device_id = match field_u32(fields, "device_id") {
        Ok(x) => x,
        Err(e) => return Err(e),
    };
    let command_queue_id = match field_u32(fields, "command_queue_id") {
        Ok(x) => x,
        Err(e) => return Err(e),
    };
    let start_time = match field_u64(fields, "start_time") {
        Ok(x) => x,
        Err(e) => return Err(e),
    };
    let end_time = match field_u64(fields, "end_time") {
        Ok(x) => x,
        Err(e) => return Err(e),
    };
    Ok(MemoryTransfers { type_transfer, device_id, command_queue_id, start_time, end_time })
}

/// One run-information record.
pub open spec fn spec_decode_run_information(fs: Seq<(String, Json)>) -> Result<
    RunInformation,
    SchemaError,
> {
    match s_field_decimal(fs, "fmax"@) {
        Ok(d) => Ok(RunInformation { fmax: d }),
        Err(e) => Err(e),
    }
}

pub fn decode_run_information(fields: &Vec<(String, Json)>) -> (r: Result<
    RunInformation,
    SchemaError,
>)
    ensures
        r == spec_decode_run_information(fields@),
{
    match field_decimal(fields, "fmax") {
        Ok(d) => Ok(RunInformation { fmax: d }),
        Err(e) => Err(e),
    }
}

/// One top-level node, selected by its `type` tag.
pub open spec fn spec_decode_node(v: Json) -> Result<SpecNode, SchemaError> {
    match v {
        Json::Object(fields) => match spec_obj_get(fields@, "type"@) {
            None => Err(SchemaError::MissingField),
            Some(Json::Text(s)) => {
                if s@ == "kernel"@ {
                    match spec_decode_kernel(fields@) {
                        Ok(k) => Ok(SpecNode::Kernel(k)),
                        Err(e) => Err(e),
                    }
                } else if s@ == "board"@ {
                    match spec_decode_board(fields@) {
                        Ok(b) => Ok(SpecNode::Board(b)),
                        Err(e) => Err(e),
                    }
                } else if s@ == "memtransfers"@ {
                    match spec_decode_memory_transfers(fields@) {
                        Ok(m) => Ok(SpecNode::MemoryTransfers(m)),
                        Err(e) => Err(e),
                    }
                } else if s@ == "runinfo"@ {
                    match spec_decode_run_information(fields@) {
                        Ok(x) => Ok(SpecNode::RunInformation(x)),
                        Err(e) => Err(e),
                    }
                } else {
                    Err(SchemaError::UnknownTag)
                }
            },
            Some(_) => Err(SchemaError::WrongType),
        },
        _ => Err(SchemaError::WrongType),
    }
}

pub fn decode_node(v: &Json) -> (r: Result<Node, SchemaError>)
    ensures
        match r {
            Ok(n) => spec_decode_node(*v) == Ok::<SpecNode, SchemaError>(view_node(n)),
            Err(e) => spec_decode_node(*v) == Err::<SpecNode, SchemaError>(e),
        },
{
    match v {
        Json::Object(fields) => match obj_get(fields, "type") {
            None => Err(SchemaError::MissingField),
            Some(Json::Text(s)) => {
                if crate::numeric::str_eq(s.as_str(), "kernel") {
                    match decode_kernel(fields) {
                        Ok(k) => Ok(Node::Kernel(k)),
                        Err(e) => Err(e),
                    }
                } else if crate::numeric::str_eq(s.as_str(), "board") {
                    match decode_board(fields) {
                        Ok(b) => Ok(Node::Board(b)),
                        Err(e) => Err(e),
                    }
                } else if crate::numeric::str_eq(s.as_str(), "memtransfers") {
                    match decode_memory_transfers(fields) {
                        Ok(m) => Ok(Node::MemoryTransfers(m)),
                        Err(e) => Err(e),
                    }
                } else if crate::numeric::str_eq(s.as_str(), "runinfo") {
                    match decode_run_information(fields) {
                        Ok(x) => Ok(Node::RunInformation(x)),
                        Err(e) => Err(e),
                    }
                } else {
                    Err(SchemaError::UnknownTag)
                }
            },
            Some(_) => Err(SchemaError::WrongType),
        },
        _ => Err(SchemaError::WrongType),
    }
}

/// The first `n` items of a node array, decoded in order.
pub open spec fn s_node_seq(items: Seq<Json>, n: int) -> Result<Seq<SpecNode>, SchemaError>
    decreases n,
{
    if n <= 0 || n > items.len() {
        Ok(Seq::empty())
    } else {
        match s_node_seq(items, n - 1) {
            Ok(pre) => match spec_decode_node(items[n - 1]) {
                Ok(x) => Ok(pre.push(x)),
                Err(e) => Err(e),
            },
            Err(e) => Err(e),
        }
    }
}

proof fn lemma_s_node_seq_err(items: Seq<Json>, n: int, m: int)
    requires
        0 <= n <= m <= items.len(),
        s_node_seq(items, n) is Err,
    ensures
        s_node_seq(items, m) == s_node_seq(items, n),
    decreases m - n,
{
    if n < m {
        lemma_s_node_seq_err(items, n, m - 1);
    }
}

proof fn lemma_view_node_seq_push(s: Seq<Node>, x: Node)
    ensures
        view_node_seq(s.push(x)) == view_node_seq(s).push(view_node(x)),
{
    assert(view_node_seq(s.push(x)) =~= view_node_seq(s).push(view_node(x)));
}

#[verifier::rlimit(50)]
pub fn decode_node_array(items: &Vec<Json>) -> (r: Result<Vec<Node>, SchemaError>)
    ensures
        match r {
            Ok(ns) => s_node_seq(items@, items@.len() as int) == Ok::<Seq<SpecNode>, SchemaError>(
                view_node_seq(ns@),
            ),
            Err(e) => s_node_seq(items@, items@.len() as int) == Err::<Seq<SpecNode>, SchemaError>(
                e,
            ),
        },
{
    let mut out: Vec<Node> = Vec::new();
    let mut i: usize = 0;
    proof {
        assert(view_node_seq(out@) =~= Seq::<SpecNode>::empty());
    }
    while i < items.len()
        invariant
            0 <= i <= items@.len(),
            s_node_seq(items@, i as int) == Ok::<Seq<SpecNode>, SchemaError>(view_node_seq(out@)),
        decreases items@.len() - i,
    {
        let x = match decode_node(&items[i]) {
            Ok(x) => x,
            Err(e) => {
                proof {
                    lemma_s_node_seq_err(items@, i + 1, items@.len() as int);
                }
                return Err(e);
            },
        };
        proof {
            lemma_view_node_seq_push(out@, x);
        }
        out.push(x);
        i += 1;
    }
    Ok(out)
}

/// One node collection: an object whose `nodes` field is an array of tagged
/// nodes, or the empty-string sentinel standing for an empty collection; a
/// non-empty string there is a schema error.
pub open spec fn spec_decode_nodes(v: Json) -> Result<Seq<SpecNode>, SchemaError> {
    match v {
        Json::Object(fields) => match spec_obj_get(fields@, "nodes"@) {
            None => Err(SchemaError::MissingField),
            Some(Json::Text(s)) => {
                if s@.len() == 0 {
                    Ok(Seq::empty())
                } else {
                    Err(SchemaError::NonEmptyString)
                }
            },
            Some(Json::Array(items)) => s_node_seq(items@, items@.len() as int),
            Some(_) => Err(SchemaError::WrongType),
        },
        _ => Err(SchemaError::WrongType),
    }
}

pub fn decode_nodes(v: &Json) -> (r: Result<Nodes, SchemaError>)
    ensures
        match r {
            Ok(ns) => spec_decode_nodes(*v) == Ok::<Seq<SpecNode>, SchemaError>(
                view_node_seq(ns.nodes@),
            ),
            Err(e) => spec_decode_nodes(*v) == Err::<Seq<SpecNode>, SchemaError>(e),
        },
{
    match v {
        Json::Object(fields) => match obj_get(fields, "nodes") {
            None => Err(SchemaError::MissingField),
            Some(Json::Text(s)) => {
                if s.as_str().unicode_len() == 0 {
                    let nodes: Vec<Node> = Vec::new();
                    proof {
                        assert(view_node_seq(nodes@) =~= Seq::<SpecNode>::empty());
                    }
                    Ok(Nodes { nodes })
                } else {
                    Err(SchemaError::NonEmptyString)
                }
            },
            Some(Json::Array(items)) => match decode_node_array(items) {
                Ok(ns) => Ok(Nodes { nodes: ns }),
                Err(e) => Err(e),
            },
            Some(_) => Err(SchemaError::WrongType),
        },
        _ => Err(SchemaError::WrongType),
    }
}

/// The two version strings.
pub open spec fn spec_decode_versions(v: Json) -> Result<Versions, SchemaError> {
    match v {
        Json::Object(fields) => {
            let profiler_json_version = s_field_string(fields@, "profiler_json_version"@);
            let aocx_version = s_field_string(fields@, "aocx_version"@);
            if profiler_json_version is Err {
                Err(profiler_json_version->Err_0)
            } else if aocx_version is Err {
                Err(aocx_version->Err_0)
            } else {
                Ok(
                    Versions {
                        profiler_json_version: profiler_json_version->Ok_0,
                        aocx_version: aocx_version->Ok_0,
                    },
                )
            }
        },
        _ => Err(SchemaError::WrongType),
    }
}

pub fn decode_versions(v: &Json) -> (r: Result<Versions, SchemaError>)
    ensures
        r == spec_decode_versions(*v),
{
    match v {
        Json::Object(fields) => {
            let profiler_json_version = match field_string(fields, "profiler_json_version") {
                Ok(x) => x,
                Err(e) => return Err(e),
            };
            let aocx_version = match field_string(fields, "aocx_version") {
                Ok(x) => x,
                Err(e) => return Err(e),
            };
            Ok(Versions { profiler_json_version, aocx_version })
        },
        _ => Err(SchemaError::WrongType),
    }
}

/// The whole document: version strings and the five node collections.
pub open spec fn spec_decode_profile(v: Json) -> Result<SpecProfile, SchemaError> {
    match v {
        Json::Object(fields) => {
            let json_type = s_field_string(fields@, "json_type"@);
            let versions = match spec_obj_get(fields@, "versions"@) {
                None => Err(SchemaError::MissingField),
                Some(w) => spec_decode_versions(w),
            };
            let kernels = match spec_obj_get(fields@, "kernels"@) {
                None => Err(SchemaError::MissingField),
                Some(w) => spec_decode_nodes(w),
            };
            let boards = match spec_obj_get(fields@, "boards"@) {
                None => Err(SchemaError::MissingField),
                Some(w) => spec_decode_nodes(w),
            };
            let memory_transfers = match spec_obj_get(fields@, "memtransfers"@) {
                None => Err(SchemaError::MissingField),
                Some(w) => spec_decode_nodes(w),
            };
            let channels = match spec_obj_get(fields@, "channels"@) {
                None => Err(SchemaError::MissingField),
                Some(w) => spec_decode_nodes(w),
            };
            let run_information = match spec_obj_get(fields@, "run_info"@) {
                None => Err(SchemaError::MissingField),
                Some(w) => spec_decode_nodes(w),
            };
            if json_type is Err {
                Err(json_type->Err_0)
            } else if versions is Err {
                Err(versions->Err_0)
            } else if kernels is Err {
                Err(kernels->Err_0)
            } else if boards is Err {
                Err(boards->Err_0)
            } else if memory_transfers is Err {
                Err(memory_transfers->Err_0)
            } else if channels is Err {
                Err(channels->Err_0)
            } else if run_information is Err {
                Err(run_information->Err_0)
            } else {
                Ok(
                    SpecProfile {
                        json_type: json_type->Ok_0,
                        versions: versions->Ok_0,
                        kernels: kernels->Ok_0,
                        boards: boards->Ok_0,
                        memory_transfers: memory_transfers->Ok_0,
                        channels: channels->Ok_0,
                        run_information: run_information->Ok_0,
                    },
                )
            }
        },
        _ => Err(SchemaError::WrongType),
    }
}

pub fn decode_profile(v: &Json) -> (r: Result<Profile, SchemaError>)
    ensures
        match r {
            Ok(p) => spec_decode_profile(*v) == Ok::<SpecProfile, SchemaError>(view_profile(p)),
            Err(e) => spec_decode_profile(*v) == Err::<SpecProfile, SchemaError>(e),
        },
{
    match v {
        Json::Object(fields) => {
            let json_type = match field_string(fields, "json_type") {
                Ok(x) => x,
                Err(e) => return Err(e),
            };
            let versions = match obj_get(fields, "versions") {
                None => return Err(SchemaError::MissingField),
                Some(w) => match decode_versions(w) {
                    Ok(x) => x,
                    Err(e) => return Err(e),
                },
            };
            let kernels = match obj_get(fields, "kernels") {
                None => return Err(SchemaError::MissingField),
                Some(w) => match decode_nodes(w) {
                    Ok(x) => x,
                    Err(e) => return Err(e),
                },
            };
            let boards = match obj_get(fields, "boards") {
                None => return Err(SchemaError::MissingField),
                Some(w) => match decode_nodes(w) {
                    Ok(x) => x,
                    Err(e) => return Err(e),
                },
            };
            let memory_transfers = match obj_get(fields, "memtransfers") {
                None => return Err(SchemaError::MissingField),
                Some(w) => match decode_nodes(w) {
                    Ok(x) => x,
                    Err(e) => return Err(e),
                },
            };
            let channels = match obj_get(fields, "channels") {
                None => return Err(SchemaError::MissingField),
                Some(w) => match decode_nodes(w) {
                    Ok(x) => x,
                    Err(e) => return Err(e),
                },
            };
            let run_information = match obj_get(fields, "run_info") {
                None => return Err(SchemaError::MissingField),
                Some(w) => match decode_nodes(w) {
                    Ok(x) => x,
                    Err(e) => return Err(e),
                },
            };
            Ok(
                Profile {
                    json_type,
                    versions,
                    kernels,
                    boards,
                    memory_transfers,
                    channels,
                    run_information,
                },
            )
        },
        _ => Err(SchemaError::WrongType),
    }
}

/// What decoding a whole document text yields: a syntax error when the text
/// is not JSON, else the decoded profile or its schema error.
pub open spec fn spec_parse_profile(text: Seq<char>) -> Result<SpecProfile, SchemaError> {
    match json_document_of(text) {
        None => Err(SchemaError::Syntax),
        Some(v) => spec_decode_profile(v),
    }
}

/// Parses one profile document from its text.
pub fn parse_profile(text: &str) -> (r: Result<Profile, SchemaError>)
    ensures
        match r {
            Ok(p) => spec_parse_profile(text@) == Ok::<SpecProfile, SchemaError>(view_profile(p)),
            Err(e) => spec_parse_profile(text@) == Err::<SpecProfile, SchemaError>(e),
        },
{
    match crate::json::parse_json(text) {
        None => Err(SchemaError::Syntax),
        Some(v) => decode_profile(&v),
    }
}

} // verus!
