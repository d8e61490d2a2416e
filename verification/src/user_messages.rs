//! The messages shown to users, each with a key, a stable code, a short body and longer
//! details.
use vstd::prelude::*;

use crate::text::{decimal_seq, replace_seq};

verus! {

/// The code of the missing hashtree key error.
pub const DECLARATIONS_HASHTREE_KEY_NOT_FOUND_CODE: &'static str = "RXE-ERR-0001";

/// The code of the unsupported `showowner` extension warning.
pub const DECLARATIONS_SHOWOWNER_EXTENSION_UNSUPPORTED_CODE: &'static str = "RXE-WARN-0001";

/// The code of the missing name field warning.
pub const TREESITTER_NAME_FIELD_MISSING_CODE: &'static str = "RXE-WARN-0002";

/// The body of the missing hashtree key error; `{}` stands for the key.
pub const DECLARATION_HASHTREE_KEY_NOT_FOUND_BODY: &'static str = "hashtree_key={} not found";

/// The body of the unsupported `showowner` extension warning.
pub const DECLARATION_SHOWOWNER_EXTENSION_UNSUPPORTED_BODY: &'static str = "apply:showowner extension did not match supported languages";

/// The body of the missing name field warning; the `{}` stand for the node kind and a
/// preview of the node's text.
pub const TREESITTER_NAME_FIELD_MISSING_BODY: &'static str = "Could not find name field for node kind: {} : {}";

/// A message shown to users.
#[derive(Debug, Clone, Copy)]
pub struct UserMessageDef {
    /// Internal message key.
    pub key: &'static str,
    /// Stable external code.
    pub code: &'static str,
    /// Short user-visible body text.
    pub body: &'static str,
    /// Longer diagnostic details.
    pub details: &'static str,
}

/// The message `declarations_hashtree_key_not_found_def` gives.
pub open spec fn declarations_hashtree_key_not_found_def_spec() -> UserMessageDef {
    UserMessageDef {
        key: "declarations_hashtree_key_not_found",
        code: DECLARATIONS_HASHTREE_KEY_NOT_FOUND_CODE,
        body: DECLARATION_HASHTREE_KEY_NOT_FOUND_BODY,
        details: "\nThis error means a `declarations` hit referenced a tree-sitter key that was not found in the parsed declarations map.\nThis usually indicates declarations state got out of sync between parsing and filtering.\n",
    }
}

/// The missing hashtree key error.
pub fn declarations_hashtree_key_not_found_def() -> (m: UserMessageDef)
    ensures
        m == declarations_hashtree_key_not_found_def_spec(),
        m.key@ == "declarations_hashtree_key_not_found"@,
        m.code@ == DECLARATIONS_HASHTREE_KEY_NOT_FOUND_CODE@,
        m.body@ == DECLARATION_HASHTREE_KEY_NOT_FOUND_BODY@,
{
    UserMessageDef {
        key: "declarations_hashtree_key_not_found",
        code: DECLARATIONS_HASHTREE_KEY_NOT_FOUND_CODE,
        body: DECLARATION_HASHTREE_KEY_NOT_FOUND_BODY,
        details: "\nThis error means a `declarations` hit referenced a tree-sitter key that was not found in the parsed declarations map.\nThis usually indicates declarations state got out of sync between parsing and filtering.\n",
    }
}

/// The message `declarations_showowner_extension_unsupported_def` gives.
pub open spec fn declarations_showowner_extension_unsupported_def_spec() -> UserMessageDef {
    UserMessageDef {
        key: "declarations_showowner_extension_unsupported",
        code: DECLARATIONS_SHOWOWNER_EXTENSION_UNSUPPORTED_CODE,
        body: DECLARATION_SHOWOWNER_EXTENSION_UNSUPPORTED_BODY,
        details: "\nThis warning means the programming language extension for the provided file does not have an rxedit tree-sitter grammar defined yet.\nBasic commands like more/all/less still work, but syntax-aware features such as declarations and show owner are unavailable for that extension.\n",
    }
}

/// The unsupported `showowner` extension warning.
pub fn declarations_showowner_extension_unsupported_def() -> (m: UserMessageDef)
    ensures
        m == declarations_showowner_extension_unsupported_def_spec(),
        m.key@ == "declarations_showowner_extension_unsupported"@,
        m.code@ == DECLARATIONS_SHOWOWNER_EXTENSION_UNSUPPORTED_CODE@,
        m.body@ == DECLARATION_SHOWOWNER_EXTENSION_UNSUPPORTED_BODY@,
{
    UserMessageDef {
        key: "declarations_showowner_extension_unsupported",
        code: DECLARATIONS_SHOWOWNER_EXTENSION_UNSUPPORTED_CODE,
        body: DECLARATION_SHOWOWNER_EXTENSION_UNSUPPORTED_BODY,
        details: "\nThis warning means the programming language extension for the provided file does not have an rxedit tree-sitter grammar defined yet.\nBasic commands like more/all/less still work, but syntax-aware features such as declarations and show owner are unavailable for that extension.\n",
    }
}

/// The message `treesitter_name_field_missing_def` gives.
pub open spec fn treesitter_name_field_missing_def_spec() -> UserMessageDef {
    UserMessageDef {
        key: "treesitter_name_field_missing",
        code: TREESITTER_NAME_FIELD_MISSING_CODE,
        body: TREESITTER_NAME_FIELD_MISSING_BODY,
        details: "\nThis warning means rxedit found a declarations node that does not expose the expected name field in the current grammar,\nso that declarations is skipped when building the declaration index.\n",
    }
}

/// The missing name field warning.
pub fn treesitter_name_field_missing_def() -> (m: UserMessageDef)
    ensures
        m == treesitter_name_field_missing_def_spec(),
        m.key@ == "treesitter_name_field_missing"@,
        m.code@ == TREESITTER_NAME_FIELD_MISSING_CODE@,
        m.body@ == TREESITTER_NAME_FIELD_MISSING_BODY@,
{
    UserMessageDef {
        key: "treesitter_name_field_missing",
        code: TREESITTER_NAME_FIELD_MISSING_CODE,
        body: TREESITTER_NAME_FIELD_MISSING_BODY,
        details: "\nThis warning means rxedit found a declarations node that does not expose the expected name field in the current grammar,\nso that declarations is skipped when building the declaration index.\n",
    }
}

/// Every message, in a fixed order.
pub open spec fn all_messages_spec() -> Seq<UserMessageDef> {
    seq![
        declarations_hashtree_key_not_found_def_spec(),
        declarations_showowner_extension_unsupported_def_spec(),
        treesitter_name_field_missing_def_spec(),
    ]
}

/// Every message, in a fixed order (`all_messages_spec`).
pub fn all_messages() -> (r: Vec<UserMessageDef>)
    ensures
        r@ == all_messages_spec(),
        r@.len() == 3,
        r@[0].code@ == DECLARATIONS_HASHTREE_KEY_NOT_FOUND_CODE@,
        r@[1].code@ == DECLARATIONS_SHOWOWNER_EXTENSION_UNSUPPORTED_CODE@,
        r@[2].code@ == TREESITTER_NAME_FIELD_MISSING_CODE@,
{
    let mut r: Vec<UserMessageDef> = Vec::new();
    r.push(declarations_hashtree_key_not_found_def());
    r.push(declarations_showowner_extension_unsupported_def());
    r.push(treesitter_name_field_missing_def());
    r
}

/// A message as shown: `[code] body`.
pub open spec fn coded(code: &str, body: Seq<char>) -> Seq<char> {
    "["@ + code@ + "] "@ + body
}

/// The missing hashtree key error for `hashtree_key`.
pub fn declarations_hashtree_key_not_found(hashtree_key: usize) -> (r: String)
    ensures
        r@ == coded(
            DECLARATIONS_HASHTREE_KEY_NOT_FOUND_CODE,
            replace_seq(DECLARATION_HASHTREE_KEY_NOT_FOUND_BODY@, "{}"@, decimal_seq(hashtree_key as nat), false, 1),
        ),
{
    let key = crate::text::usize_to_string(hashtree_key);
    let body = crate::text::replacen(DECLARATION_HASHTREE_KEY_NOT_FOUND_BODY, "{}", key.as_str(), 1);
    let head = crate::text::concat3("[", DECLARATIONS_HASHTREE_KEY_NOT_FOUND_CODE, "] ");
    crate::text::concat2(head.as_str(), body.as_str())
}

/// The unsupported `showowner` extension warning.
pub fn declarations_showowner_extension_unsupported() -> (r: String)
    ensures
        r@ == coded(DECLARATIONS_SHOWOWNER_EXTENSION_UNSUPPORTED_CODE, DECLARATION_SHOWOWNER_EXTENSION_UNSUPPORTED_BODY@),
{
    let head = crate::text::concat3("[", DECLARATIONS_SHOWOWNER_EXTENSION_UNSUPPORTED_CODE, "] ");
    crate::text::concat2(head.as_str(), DECLARATION_SHOWOWNER_EXTENSION_UNSUPPORTED_BODY)
}

/// The missing name field warning for a node kind and a preview of the node's text: the
/// first `{}` of the body becomes the kind, then the first `{}` of that the preview.
pub fn treesitter_name_field_missing(node_kind: &str, preview: &str) -> (r: String)
    ensures
        r@ == coded(
            TREESITTER_NAME_FIELD_MISSING_CODE,
            replace_seq(
                replace_seq(TREESITTER_NAME_FIELD_MISSING_BODY@, "{}"@, node_kind@, false, 1),
                "{}"@,
                preview@,
                false,
                1,
            ),
        ),
{
    let first = crate::text::replacen(TREESITTER_NAME_FIELD_MISSING_BODY, "{}", node_kind, 1);
    let body = crate::text::replacen(first.as_str(), "{}", preview, 1);
    let head = crate::text::concat3("[", TREESITTER_NAME_FIELD_MISSING_CODE, "] ");
    crate::text::concat2(head.as_str(), body.as_str())
}

} // verus!
