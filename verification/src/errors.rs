use vstd::prelude::*;

verus! {

/// A fatal failure while resolving a configuration document. Loading either
/// yields a whole configuration or one of these; nothing partial survives.
#[derive(Debug)]
pub enum ConfigError {
    /// The document is not valid JSON; the message depends on the guessed
    /// media type of the path.
    JsonSyntax { path: String, message: String },
    /// A rule's configured value is not a recognized severity form; carries
    /// the offending value's textual form.
    InvalidRuleValue { value: String },
    /// A settings component mapping has a non-string value; carries the
    /// offending component name.
    SettingsType { key: String },
}

} // verus!
