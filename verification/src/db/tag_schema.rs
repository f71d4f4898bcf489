//! Tag schema decisions: which default values a schema accepts, and how
//! its targets are stored.
use vstd::prelude::*;

use crate::db::csv_codec::json_opt_text;
use crate::error::{Result, WorldflowError};
use crate::ids::TextResult;
use crate::text::push_str;

verus! {

broadcast use vstd::string::group_string_axioms;

/// The error for a default value that does not fit the schema's type.
pub open spec fn default_error_text(val: Seq<char>, kind: Seq<char>) -> Seq<char> {
    "default_val '"@ + val + "' 不是合法"@ + kind
}

/// Checks a schema's default value against its type: a `number` schema needs
/// a default that parses as a number (`parses_as_number`, what parsing it as
/// `f64` gave), a `boolean` schema needs `true` or `false`; other types and a
/// missing default are accepted.
pub fn check_tag_default(value_type: &str, default_val: Option<&str>, parses_as_number: bool) -> (r: Result<()>)
    ensures
        default_val is None ==> r is Ok,
        default_val matches Some(v) ==> {
            &&& (value_type@ == "number"@ && !parses_as_number) ==> (r matches Err(e) && (e matches WorldflowError::InvalidInput(m)
                && m@ == default_error_text(v@, "数字"@)))
            &&& !(value_type@ == "number"@ && !parses_as_number) && value_type@ == "boolean"@ && v@ != "true"@
                && v@ != "false"@ ==> (r matches Err(e) && (e matches WorldflowError::InvalidInput(m)
                && m@ == default_error_text(v@, "布尔值"@)))
            &&& !(value_type@ == "number"@ && !parses_as_number) && !(value_type@ == "boolean"@ && v@ != "true"@
                && v@ != "false"@) ==> r is Ok
        },
{
    let v = match default_val {
        None => {
            return Ok(());
        },
        Some(v) => v,
    };
    let ty = String::from_str(value_type);
    let val = String::from_str(v);
    if ty == String::from_str("number") && !parses_as_number {
        let mut m = String::from_str("default_val '");
        push_str(&mut m, v);
        push_str(&mut m, "' 不是合法数字");
        proof {
            assert(m@ =~= default_error_text(v@, "数字"@)) by {
                reveal_strlit("' 不是合法数字");
                reveal_strlit("' 不是合法");
                reveal_strlit("数字");
            }
        }
        return Err(WorldflowError::InvalidInput(m));
    }
    if ty == String::from_str("boolean") && val != String::from_str("true") && val != String::from_str("false") {
        let mut m = String::from_str("default_val '");
        push_str(&mut m, v);
        push_str(&mut m, "' 不是合法布尔值");
        proof {
            assert(m@ =~= default_error_text(v@, "布尔值"@)) by {
                reveal_strlit("' 不是合法布尔值");
                reveal_strlit("' 不是合法");
                reveal_strlit("布尔值");
            }
        }
        return Err(WorldflowError::InvalidInput(m));
    }
    Ok(())
}

/// The JSON text of a list of strings, as `serde_json` writes it: the quoted
/// strings, separated by commas, in brackets.
pub open spec fn json_string_list(items: Seq<Seq<char>>) -> Seq<char> {
    seq!['['] + json_list_items(items) + seq![']']
}

/// The quoted strings of a list, separated by commas.
pub open spec fn json_list_items(items: Seq<Seq<char>>) -> Seq<char>
    decreases items.len(),
{
    if items.len() == 0 {
        Seq::empty()
    } else if items.len() == 1 {
        json_opt_text(Some(items[0]))
    } else {
        json_list_items(items.drop_last()) + seq![','] + json_opt_text(Some(items.last()))
    }
}

/// `serde_json::to_string` of a list of strings: compact, no spaces, each
/// string quoted with `serde_json`'s escapes. Serializing a list of strings
/// into memory cannot fail, so the result is always `Ok`.
#[verifier::external_body]
fn json_encode_strings(items: &Vec<String>) -> (r: TextResult<String>)
    ensures
        r is Ok,
        r matches Ok(t) ==> t@ == json_string_list(items@.map_values(|s: String| s@)),
{
    match serde_json::to_string(items) {
        Ok(t) => Ok(t),
        Err(e) => Err(e.to_string()),
    }
}

/// The stored form of a schema's target types: their JSON list. Encoding a
/// list of strings always succeeds.
pub fn encode_tag_targets(targets: &Vec<String>) -> (r: Result<String>)
    ensures
        r is Ok,
        r matches Ok(t) ==> t@ == json_string_list(targets@.map_values(|s: String| s@)),
        r matches Err(e) ==> e is Serialization,
{
    match json_encode_strings(targets) {
        Ok(t) => Ok(t),
        Err(m) => Err(WorldflowError::Serialization(m)),
    }
}

} // verus!
