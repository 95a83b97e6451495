//! Names of generated files, and which templates go to the full template engine.
use vstd::prelude::*;
use crate::text::{chars_of, replace_all, replaced, same, text_of};

verus! {

/// `text` with every `@sourcename@` replaced by the source name.
pub open spec fn source_named(text: Seq<char>, sourcename: Seq<char>) -> Seq<char> {
    replaced(text, "@sourcename@"@, sourcename)
}

/// The output path for a template path: the source name filled in and the template
/// engine suffixes `.tera`, `.j2` and `.njk` dropped.
pub open spec fn output_named(path: Seq<char>, sourcename: Seq<char>) -> Seq<char> {
    replaced(
        replaced(replaced(source_named(path, sourcename), ".tera"@, seq![]), ".j2"@, seq![]),
        ".njk"@,
        seq![],
    )
}

/// `text` with every `@sourcename@` replaced by `sourcename`.
pub fn with_source_name(text: &str, sourcename: &str) -> (r: String)
    ensures
        r@ == source_named(text@, sourcename@),
{
    text_of(&replace_all(&chars_of(text), &chars_of("@sourcename@"), &chars_of(sourcename)))
}

/// The path of the file generated from the template at `path`.
pub fn output_file_name(path: &str, sourcename: &str) -> (r: String)
    ensures
        r@ == output_named(path@, sourcename@),
{
    let none: Vec<char> = Vec::new();
    assert(none@ =~= seq![]);
    let x = replace_all(&chars_of(path), &chars_of("@sourcename@"), &chars_of(sourcename));
    let x = replace_all(&x, &chars_of(".tera"), &none);
    let x = replace_all(&x, &chars_of(".j2"), &none);
    let x = replace_all(&x, &chars_of(".njk"), &none);
    text_of(&x)
}

/// Whether a template with the file extension `ext` is rendered by the full template
/// engine rather than by the tag renderer.
pub fn is_engine_template(ext: &str) -> (r: bool)
    ensures
        r == (ext@ == "tera"@ || ext@ == "j2"@ || ext@ == "njk"@),
{
    let e = chars_of(ext);
    same(&e, &chars_of("tera")) || same(&e, &chars_of("j2")) || same(&e, &chars_of("njk"))
}

} // verus!
