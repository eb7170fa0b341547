//! What the library decides about the template: the fallback helper and
//! the file that a rendering goes to.

use crate::json::Json;
use crate::paths::{path_with_extension, with_extension};
use vstd::prelude::*;

verus! {

/// The `default` helper of the template language: the fallback where the
/// parameter is absent or `null`, and else the parameter.
pub fn default_value_helper<'a>(param: &'a Json, fallback: &'a Json) -> (chosen: &'a Json)
    ensures
        chosen == if param@ is Null {
            fallback
        } else {
            param
        },
{
    if param.is_null() {
        fallback
    } else {
        param
    }
}

/// The file that the template is rendered to, relative to a workspace:
/// the template itself when rendering in place, and else the template's
/// path without its last extension.
pub open spec fn template_output_of(template_file: Seq<char>, in_place: bool) -> Seq<char> {
    if in_place {
        template_file
    } else {
        path_with_extension(template_file, Seq::empty())
    }
}

/// Names the file that the template is rendered to: see
/// [`template_output_of`].
pub fn template_output_file(template_file: &str, in_place: bool) -> (output: String)
    ensures
        output@ == template_output_of(template_file@, in_place),
{
    if in_place {
        String::from_str(template_file)
    } else {
        let none = String::new();
        with_extension(template_file, none.as_str())
    }
}

} // verus!
