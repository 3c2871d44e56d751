//! What is said about JSON that gives no parameter values.

use crate::json::error::{debug_string, debug_text, steps_text, JsonInputError, NameAtomError};
use vstd::prelude::*;
use vstd::string::StringExecFns;

verus! {

impl NameAtomError {
    pub open spec fn text(self) -> Seq<char> {
        match self {
            NameAtomError::Empty => "a name must not be empty"@,
            NameAtomError::PathSeparator => "a name must not contain `.`"@,
        }
    }

    pub fn as_str(&self) -> (r: &'static str)
        ensures
            r@ == self.text(),
    {
        match self {
            NameAtomError::Empty => "a name must not be empty",
            NameAtomError::PathSeparator => "a name must not contain `.`",
        }
    }
}

impl JsonInputError {
    /// The message.
    pub open spec fn text(self) -> Seq<char> {
        match self {
            JsonInputError::Json { message } => "invalid JSON: "@ + message@,
            JsonInputError::TopLevelNotObject => "top-level JSON value must be an object"@,
            JsonInputError::InvalidName {
                param,
                role,
                value,
                reason,
            } => "invalid "@ + role@ + " name `"@ + value@ + "` for `"@ + param@ + "`: "@ + reason.text(),
            JsonInputError::ParseFailed {
                param,
                source,
            } => "failed to parse value for `"@ + param@ + "`: "@ + source.text(),
            JsonInputError::DuplicateKey { path, key } => "duplicate JSON key "@ + debug_text(key@)
                + " in object at "@ + steps_text(path@, path@.len()),
            JsonInputError::InvalidNumber {
                path,
                value,
                reason,
            } => "invalid JSON number "@ + debug_text(value@) + " at "@ + steps_text(path@, path@.len()) + ": "@ + reason.text(),
            JsonInputError::EmptyRawValue => "invalid JSON: empty raw value"@,
            JsonInputError::UnsupportedJsonType { param, kind } => "unsupported JSON type `"@
                + kind@ + "` for `"@ + param@ + "`"@,
            JsonInputError::InvalidVariant { param } => "`variant` field for `"@ + param@ + "` must be a string"@,
            JsonInputError::InvalidFields { param } => "`fields` field for `"@ + param@ + "` must be an object"@,
            JsonInputError::InvalidType { param } => "`type` field for `"@ + param@ + "` must be a string"@,
            JsonInputError::MissingTypeKey { param } => "struct object for `"@ + param@
                + "` has `fields` but no `type` key; add `\"type\": \"TypeName\"` to specify the struct type"@,
            JsonInputError::InvalidIndex { param } => "`index` field for `"@ + param@ + "` must be a string"@,
            JsonInputError::InvalidEntries { param } => "`entries` field for `"@ + param@ + "` must be an object"@,
            JsonInputError::AmbiguousObject { param } => "unrecognized JSON object shape for `"@
                + param@ + "`; expected one of: {\"variant\": ..., \"fields\": ...}, {\"type\": ..., \"fields\": ...}, or {\"index\": ..., \"entries\": ...}"@,
            JsonInputError::ConflictingObjectKeys { param } => "JSON object for `"@ + param@
                + "` mixes mutually-exclusive shape keys"@,
            JsonInputError::UnknownObjectKey { param, key } => "unknown key `"@ + key@
                + "` in JSON object for `"@ + param@ + "`"@,
        }
    }

    /// The message.
    pub fn message(&self) -> (r: String)
        ensures
            r@ == self.text(),
    {
        match self {
            JsonInputError::Json { message } => {
                let mut text: String = "invalid JSON: ".to_owned();
                text.append(message.as_str());
                text
            },
            JsonInputError::TopLevelNotObject => "top-level JSON value must be an object".to_owned(),
            JsonInputError::InvalidName { param, role, value, reason } => {
                let mut text: String = "invalid ".to_owned();
                text.append(role);
                text.append(" name `");
                text.append(value.as_str());
                text.append("` for `");
                text.append(param.as_str());
                text.append("`: ");
                text.append(reason.as_str());
                text
            },
            JsonInputError::ParseFailed { param, source } => {
                let mut text: String = "failed to parse value for `".to_owned();
                text.append(param.as_str());
                text.append("`: ");
                text.append(source.message().as_str());
                text
            },
            JsonInputError::DuplicateKey { path, key } => {
                let mut text: String = "duplicate JSON key ".to_owned();
                text.append(debug_string(key.as_str()).as_str());
                text.append(" in object at ");
                text.append(path.display().as_str());
                text
            },
            JsonInputError::InvalidNumber { path, value, reason } => {
                let mut text: String = "invalid JSON number ".to_owned();
                text.append(debug_string(value.as_str()).as_str());
                text.append(" at ");
                text.append(path.display().as_str());
                text.append(": ");
                text.append(reason.as_str());
                text
            },
            JsonInputError::EmptyRawValue => "invalid JSON: empty raw value".to_owned(),
            JsonInputError::UnsupportedJsonType { param, kind } => {
                let mut text: String = "unsupported JSON type `".to_owned();
                text.append(kind);
                text.append("` for `");
                text.append(param.as_str());
                text.append("`");
                text
            },
            JsonInputError::InvalidVariant { param } => {
                let mut text: String = "`variant` field for `".to_owned();
                text.append(param.as_str());
                text.append("` must be a string");
                text
            },
            JsonInputError::InvalidFields { param } => {
                let mut text: String = "`fields` field for `".to_owned();
                text.append(param.as_str());
                text.append("` must be an object");
                text
            },
            JsonInputError::InvalidType { param } => {
                let mut text: String = "`type` field for `".to_owned();
                text.append(param.as_str());
                text.append("` must be a string");
                text
            },
            JsonInputError::MissingTypeKey { param } => {
                let mut text: String = "struct object for `".to_owned();
                text.append(param.as_str());
                text.append(
                    "` has `fields` but no `type` key; add `\"type\": \"TypeName\"` to specify the struct type"
                );
                text
            },
            JsonInputError::InvalidIndex { param } => {
                let mut text: String = "`index` field for `".to_owned();
                text.append(param.as_str());
                text.append("` must be a string");
                text
            },
            JsonInputError::InvalidEntries { param } => {
                let mut text: String = "`entries` field for `".to_owned();
                text.append(param.as_str());
                text.append("` must be an object");
                text
            },
            JsonInputError::AmbiguousObject { param } => {
                let mut text: String = "unrecognized JSON object shape for `".to_owned();
                text.append(param.as_str());
                text.append(
                    "`; expected one of: {\"variant\": ..., \"fields\": ...}, {\"type\": ..., \"fields\": ...}, or {\"index\": ..., \"entries\": ...}"
                );
                text
            },
            JsonInputError::ConflictingObjectKeys { param } => {
                let mut text: String = "JSON object for `".to_owned();
                text.append(param.as_str());
                text.append("` mixes mutually-exclusive shape keys");
                text
            },
            JsonInputError::UnknownObjectKey { param, key } => {
                let mut text: String = "unknown key `".to_owned();
                text.append(key.as_str());
                text.append("` in JSON object for `");
                text.append(param.as_str());
                text.append("`");
                text
            },
        }
    }
}

} // verus!
