//! The Attachment API: checks on upload targets and files, and the
//! parameters of its requests.

use vstd::prelude::*;
use crate::client::{spec_identifier_error, validate_identifier};
use crate::error::Error;
use crate::query::filter::spec_valid_field_name;
use crate::query::params::{params_view, push_param};
use crate::text::{owned, push_str, spec_trim, str_chars, trim_str};

verus! {

/// The path of attachment listings.
pub const ATTACHMENT_API_PATH: &'static str = "/api/now/attachment";

/// The path of file uploads.
pub const ATTACHMENT_FILE_API_PATH: &'static str = "/api/now/attachment/file";

/// The fields read of attachments.
pub open spec fn spec_attachment_fields() -> Seq<char> {
    "sys_id,file_name,content_type,size_bytes,size_compressed,compressed,state,table_name,table_sys_id,download_link,sys_created_on,sys_created_by,sys_updated_on,sys_updated_by"@
}

/// The message for a blank value.
pub open spec fn spec_empty_message(name: Seq<char>) -> Seq<char> {
    name + " cannot be empty"@
}

/// Check that a value is not blank.
pub fn validate_non_empty(value: &str, name: &str) -> (r: Result<(), Error>)
    ensures
        r.is_ok() <==> spec_trim(value@).len() > 0,
        r matches Err(e) ==> (e matches Error::Query(m) && m@ == spec_empty_message(name@)),
{
    if trim_str(value).is_empty() {
        let mut m = owned(name);
        push_str(&mut m, " cannot be empty");
        return Err(Error::Query(m));
    }
    Ok(())
}

/// Check the record an attachment belongs to: a plain table name and a
/// non-blank sys_id.
pub fn validate_record_target(table_name: &str, table_sys_id: &str) -> (r: Result<(), Error>)
    ensures
        r.is_ok() <==> spec_valid_field_name(table_name@) && spec_trim(table_sys_id@).len() > 0,
        r matches Err(e) ==> (e matches Error::Query(m) && m@ == if !spec_valid_field_name(table_name@) {
            spec_identifier_error(table_name@, "table name"@)
        } else {
            spec_empty_message("table_sys_id"@)
        }),
{
    validate_identifier(table_name, "table name")?;
    validate_non_empty(table_sys_id, "table_sys_id")
}

/// The error of an upload check, in the order the checks are made: a blank
/// file name, a path separator in it, a blank content type, an empty body.
pub open spec fn spec_upload_error(file_name: Seq<char>, content_type: Seq<char>, size: usize) -> Option<Seq<char>> {
    if spec_trim(file_name).len() == 0 {
        Some(spec_empty_message("file_name"@))
    } else if file_name.contains('/') || file_name.contains('\\') {
        Some("attachment file_name must not contain path separators"@)
    } else if spec_trim(content_type).len() == 0 {
        Some(spec_empty_message("content_type"@))
    } else if size == 0 {
        Some("attachment upload body must not be empty"@)
    } else {
        None
    }
}

fn has_separator(s: &str) -> (r: bool)
    ensures
        r == (s@.contains('/') || s@.contains('\\')),
{
    let v = str_chars(s);
    let mut i: usize = 0;
    while i < v.len()
        invariant
            0 <= i <= v@.len(),
            v@ == s@,
            forall|j: int| 0 <= j < i ==> v@[j] != '/' && v@[j] != '\\',
        decreases v@.len() - i,
    {
        if v[i] == '/' || v[i] == '\\' {
            return true;
        }
        i = i + 1;
    }
    false
}

/// Check a file about to be uploaded: a non-blank name without path
/// separators, a non-blank content type, and a body that is not empty.
pub fn validate_upload(file_name: &str, content_type: &str, size: usize) -> (r: Result<(), Error>)
    ensures
        match spec_upload_error(file_name@, content_type@, size) {
            None => r.is_ok(),
            Some(msg) => r matches Err(Error::Query(m)) && m@ == msg,
        },
{
    validate_non_empty(file_name, "file_name")?;
    if has_separator(file_name) {
        return Err(Error::Query(owned("attachment file_name must not contain path separators")));
    }
    validate_non_empty(content_type, "content_type")?;
    if size == 0 {
        return Err(Error::Query(owned("attachment upload body must not be empty")));
    }
    Ok(())
}

/// The parameters of the listing of a record's attachments.
pub fn list_params(table_name: &str, table_sys_id: &str) -> (r: Vec<(String, String)>)
    ensures
        params_view(r@) == seq![
            ("sysparm_query"@, "table_name="@ + table_name@ + "^table_sys_id="@ + table_sys_id@),
            ("sysparm_fields"@, spec_attachment_fields()),
        ],
{
    let mut query = owned("table_name=");
    push_str(&mut query, table_name);
    push_str(&mut query, "^table_sys_id=");
    push_str(&mut query, table_sys_id);
    let mut params: Vec<(String, String)> = Vec::new();
    push_param(&mut params, "sysparm_query", query);
    push_param(
        &mut params,
        "sysparm_fields",
        owned(
            "sys_id,file_name,content_type,size_bytes,size_compressed,compressed,state,table_name,table_sys_id,download_link,sys_created_on,sys_created_by,sys_updated_on,sys_updated_by",
        ),
    );
    assert(params_view(params@) =~= seq![
        ("sysparm_query"@, "table_name="@ + table_name@ + "^table_sys_id="@ + table_sys_id@),
        ("sysparm_fields"@, spec_attachment_fields()),
    ]);
    params
}

/// The parameters of an upload.
pub fn upload_params(table_name: &str, table_sys_id: &str, file_name: &str) -> (r: Vec<(String, String)>)
    ensures
        params_view(r@) == seq![
            ("table_name"@, table_name@),
            ("table_sys_id"@, table_sys_id@),
            ("file_name"@, file_name@),
        ],
{
    let mut params: Vec<(String, String)> = Vec::new();
    push_param(&mut params, "table_name", owned(table_name));
    push_param(&mut params, "table_sys_id", owned(table_sys_id));
    push_param(&mut params, "file_name", owned(file_name));
    assert(params_view(params@) =~= seq![
        ("table_name"@, table_name@),
        ("table_sys_id"@, table_sys_id@),
        ("file_name"@, file_name@),
    ]);
    params
}

} // verus!
