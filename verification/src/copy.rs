//! Shared `COPY` configuration types.

use vstd::prelude::*;

verus! {

/// Direction of a `COPY` statement.
#[derive(Clone, Copy, Debug, PartialEq, Eq, Structural)]
pub enum CopyDirection {
    /// `COPY <table> FROM STDIN` - bulk import.
    From,
    /// `COPY <table> TO STDOUT` - bulk export.
    To,
}

/// `COPY` data format.
#[derive(Clone, Copy, Debug, PartialEq, Eq, Structural)]
pub enum CopyFormat {
    Text,
    Csv,
}

/// Fully resolved `COPY` options, with format-specific defaults applied. The
/// parser normalizes both the modern (`WITH (FORMAT csv, ...)`) and legacy
/// (`WITH CSV ...`) option syntaxes into this struct.
#[derive(Clone, Debug, PartialEq, Eq)]
pub struct CopyOptions {
    pub format: CopyFormat,
    pub delimiter: char,
    pub null_string: String,
    pub header: bool,
    /// CSV only; ignored by the text format engine.
    pub quote: char,
    /// CSV only; defaults to `quote`. Ignored by the text format engine.
    pub escape: char,
}

impl CopyOptions {
    /// The PostgreSQL defaults for a format: text uses TAB / `\N`; CSV uses
    /// comma / empty-string NULL / double-quote. The caller then overrides
    /// individual fields from the explicit `WITH` options.
    pub fn defaults_for(format: CopyFormat) -> (options: Self)
        ensures
            options.format == format,
            options.delimiter == if format == CopyFormat::Text {
                '\t'
            } else {
                ','
            },
            options.null_string@ == if format == CopyFormat::Text {
                "\\N"@
            } else {
                Seq::empty()
            },
            !options.header,
            options.quote == '"',
            options.escape == '"',
    {
        let mut null_string: String = String::new();
        let delimiter: char = match format {
            CopyFormat::Text => {
                null_string.append("\\N");
                assert(null_string@ =~= "\\N"@);
                '\t'
            },
            CopyFormat::Csv => ',',
        };
        CopyOptions { format, delimiter, null_string, header: false, quote: '"', escape: '"' }
    }
}

/// Text files separate their fields with tabs and write NULL as a backslash and an `N`,
/// CSV files separate them with commas and write NULL as nothing and quote with double
/// quotes; neither starts with a header.
pub proof fn formats_have_their_defaults(format: CopyFormat, options: CopyOptions)
    requires
        call_ensures(CopyOptions::defaults_for, (format,), options),
    ensures
        options.format == format,
        !options.header,
        options.escape == options.quote,
        options.quote as int == 34,
        format == CopyFormat::Text ==> options.delimiter as int == 9 && options.null_string@
            == seq!['\\', 'N'],
        format == CopyFormat::Csv ==> options.delimiter as int == 44 && options.null_string@.len()
            == 0,
{
    reveal_strlit("\\N");
    assert("\\N"@ =~= seq!['\\', 'N']);
}

} // verus!
