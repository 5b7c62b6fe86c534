//! What a completion proposes.

use vstd::prelude::*;

verus! {

#[derive(Debug, Clone, Copy, PartialEq, Eq, Structural)]
pub enum CompletionKind {
    Boolean,
    Integer,
    Float,
    String,
    OffsetDateTime,
    LocalDateTime,
    LocalDate,
    LocalTime,
    Array,
    Table,
    Key,
    MagicTrigger,
    CommentDirective,
}

/// The symbol under which an editor shows a completion.
#[derive(Debug, Clone, Copy, PartialEq, Eq, Structural)]
pub enum CompletionItemKind {
    Text,
    Method,
    Field,
    Value,
    Keyword,
    EnumMember,
    Struct,
    Event,
}

impl CompletionKind {
    /// Whether the completion proposes a literal value.
    #[must_use]
    pub fn is_literal(&self) -> (r: bool)
        ensures
            r == (*self == CompletionKind::Boolean || *self == CompletionKind::Integer || *self
                == CompletionKind::Float || *self == CompletionKind::String || *self
                == CompletionKind::OffsetDateTime || *self == CompletionKind::LocalDateTime
                || *self == CompletionKind::LocalDate || *self == CompletionKind::LocalTime),
    {
        matches!(
            self,
            Self::Boolean
                | Self::Integer
                | Self::Float
                | Self::String
                | Self::OffsetDateTime
                | Self::LocalDateTime
                | Self::LocalDate
                | Self::LocalTime
        )
    }

    /// The symbol of the completion. All completions stand for values;
    /// some get another symbol to tell them apart at a glance: what has
    /// to do with time is shown as an event, and a trigger as a method,
    /// since it is written like the call of one.
    #[must_use]
    pub fn item_kind(self) -> (r: CompletionItemKind)
        ensures
            r == (match self {
                CompletionKind::Boolean => CompletionItemKind::EnumMember,
                CompletionKind::Integer => CompletionItemKind::Value,
                CompletionKind::Float => CompletionItemKind::Value,
                CompletionKind::String => CompletionItemKind::Text,
                CompletionKind::OffsetDateTime => CompletionItemKind::Event,
                CompletionKind::LocalDateTime => CompletionItemKind::Event,
                CompletionKind::LocalDate => CompletionItemKind::Event,
                CompletionKind::LocalTime => CompletionItemKind::Event,
                CompletionKind::Array => CompletionItemKind::Struct,
                CompletionKind::Table => CompletionItemKind::Struct,
                CompletionKind::Key => CompletionItemKind::Field,
                CompletionKind::MagicTrigger => CompletionItemKind::Method,
                CompletionKind::CommentDirective => CompletionItemKind::Keyword,
            }),
    {
        match self {
            CompletionKind::Boolean => CompletionItemKind::EnumMember,
            CompletionKind::Integer => CompletionItemKind::Value,
            CompletionKind::Float => CompletionItemKind::Value,
            CompletionKind::String => CompletionItemKind::Text,
            CompletionKind::OffsetDateTime => CompletionItemKind::Event,
            CompletionKind::LocalDateTime => CompletionItemKind::Event,
            CompletionKind::LocalDate => CompletionItemKind::Event,
            CompletionKind::LocalTime => CompletionItemKind::Event,
            CompletionKind::Array => CompletionItemKind::Struct,
            CompletionKind::Table => CompletionItemKind::Struct,
            CompletionKind::Key => CompletionItemKind::Field,
            CompletionKind::MagicTrigger => CompletionItemKind::Method,
            CompletionKind::CommentDirective => CompletionItemKind::Keyword,
        }
    }
}

} // verus!
