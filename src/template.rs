//! Filling the name placeholder: `{{name}}` in fetched text and `$name` in
//! local paths, two separate tokens with separate substitutions.

use vstd::prelude::*;

use crate::text::{
    border_free, join_with, last_index, last_index_of, lemma_last_index_found,
    lemma_replace_joined, occurs_in, replace_all, replace_token,
};

verus! {

/// Placeholder in fetched text.
pub const CONTENT_TOKEN: &'static str = "{{name}}";

/// Placeholder in a local path.
pub const PATH_TOKEN: &'static str = "$name";

pub open spec fn content_token() -> Seq<char> {
    seq!['{', '{', 'n', 'a', 'm', 'e', '}', '}']
}

pub open spec fn path_token() -> Seq<char> {
    seq!['$', 'n', 'a', 'm', 'e']
}

/// What every task of one run shares: the name filled into placeholders.
#[derive(Debug, Clone)]
pub struct Context {
    pub name: String,
}

impl Context {
    pub fn new(name: String) -> (r: Context)
        ensures
            r.name@ == name@,
    {
        Context { name }
    }
}

/// The directory a path lives in: all before its rightmost `/`, where that is
/// not empty.
pub open spec fn parent_of(path: Seq<char>) -> Option<Seq<char>> {
    match last_index(path, '/') {
        Some(i) => if i > 0 {
            Some(path.subrange(0, i))
        } else {
            None
        },
        None => None,
    }
}

/// What is written for one file: the directory to create first, if any, the
/// path to write and the whole content that replaces what is there.
#[derive(Debug, Clone)]
pub struct WritePlan {
    pub dir: Option<String>,
    pub path: String,
    pub content: String,
}

/// `text` with every `{{name}}` replaced by the context's name.
pub fn fill_template(text: &str, ctx: &Context) -> (r: String)
    ensures
        r@ == replace_all(text@, content_token(), ctx.name@),
{
    proof {
        reveal_strlit("{{name}}");
        assert(CONTENT_TOKEN@ =~= content_token());
    }
    replace_token(text, CONTENT_TOKEN, ctx.name.as_str())
}

/// `path` with every `$name` replaced by the context's name.
pub fn output_path(path: &str, ctx: &Context) -> (r: String)
    ensures
        r@ == replace_all(path@, path_token(), ctx.name@),
{
    proof {
        reveal_strlit("$name");
        assert(PATH_TOKEN@ =~= path_token());
    }
    replace_token(path, PATH_TOKEN, ctx.name.as_str())
}

/// The directory that must exist before `path` is written.
pub fn parent_dir(path: &str) -> (r: Option<String>)
    ensures
        match r {
            Some(d) => parent_of(path@) == Some(d@),
            None => parent_of(path@) is None,
        },
{
    proof {
        lemma_last_index_found(path@, '/');
    }
    match last_index_of(path, '/') {
        Some(i) => if i > 0 {
            Some(String::from_str(path.substring_char(0, i)))
        } else {
            None
        },
        None => None,
    }
}

/// Plans the write of fetched `body` for the local path `file_path`: the
/// directory comes from the path as given, the file name has `$name` filled
/// in, and the content has `{{name}}` filled in.
pub fn plan_write(ctx: &Context, file_path: &str, body: &str) -> (r: WritePlan)
    ensures
        match r.dir {
            Some(d) => parent_of(file_path@) == Some(d@),
            None => parent_of(file_path@) is None,
        },
        r.path@ == replace_all(file_path@, path_token(), ctx.name@),
        r.content@ == replace_all(body@, content_token(), ctx.name@),
{
    let content = fill_template(body, ctx);
    let dir = parent_dir(file_path);
    let path = output_path(file_path, ctx);
    WritePlan { dir, path, content }
}

/// No proper prefix of `{{name}}` is also a suffix of it.
pub proof fn lemma_content_token_border_free()
    ensures
        border_free(content_token()),
{
    let t = content_token();
    assert forall|k: int| 0 < k < t.len() implies #[trigger] t.subrange(0, k) != t.subrange(
        t.len() - k,
        t.len() as int,
    ) by {
        if k == 7 {
            assert(t.subrange(0, k)[1] != t.subrange(t.len() - k, t.len() as int)[1]);
        } else {
            assert(t.subrange(0, k)[k - 1] != t.subrange(t.len() - k, t.len() as int)[k - 1]);
        }
    }
}

/// No proper prefix of `$name` is also a suffix of it.
pub proof fn lemma_path_token_border_free()
    ensures
        border_free(path_token()),
{
    let t = path_token();
    assert forall|k: int| 0 < k < t.len() implies #[trigger] t.subrange(0, k) != t.subrange(
        t.len() - k,
        t.len() as int,
    ) by {
        assert(t.subrange(0, k)[0] != t.subrange(t.len() - k, t.len() as int)[0]);
    }
}

/// Text made of `parts` with `{{name}}` between each two (so `parts.len() - 1`
/// placeholders), none of the parts holding `{{name}}` itself, is filled to
/// the same parts with `name` in each placeholder's place and nothing else
/// changed.
pub proof fn law_template_fills_every_placeholder(parts: Seq<Seq<char>>, name: Seq<char>)
    requires
        parts.len() >= 1,
        forall|i: int| 0 <= i < parts.len() ==> !occurs_in(#[trigger] parts[i], content_token()),
    ensures
        replace_all(join_with(parts, content_token()), content_token(), name) == join_with(
            parts,
            name,
        ),
{
    lemma_content_token_border_free();
    lemma_replace_joined(parts, content_token(), name);
}

/// A path made of `parts` with `$name` between each two, none of the parts
/// holding `$name` itself, becomes the same parts with `name` in each
/// placeholder's place.
pub proof fn law_path_fills_every_placeholder(parts: Seq<Seq<char>>, name: Seq<char>)
    requires
        parts.len() >= 1,
        forall|i: int| 0 <= i < parts.len() ==> !occurs_in(#[trigger] parts[i], path_token()),
    ensures
        replace_all(join_with(parts, path_token()), path_token(), name) == join_with(parts, name),
{
    lemma_path_token_border_free();
    lemma_replace_joined(parts, path_token(), name);
}

} // verus!
