//! Confirmatory checks and descriptions of the parsers for mail, calendar and contact files.

use vstd::prelude::*;
use vstd::slice::slice_subrange;
use crate::format::cfb_magic;
use crate::format::contains;
use crate::format::Format;
use crate::format::format_of;
use crate::format::FormatFamily;
use crate::format::spec_contains;
use crate::format::spec_holds_at;
use crate::legacy::describe_text_parser;
use crate::legacy::is_ole2;
use crate::legacy::legacy_parser_metadata;
use crate::parser::ParserMetadata;
use crate::text::lit;
use crate::text::spec_starts_with;
use crate::text::starts_with;

verus! {

/// The first `limit` bytes of `data`, or all of it where it is shorter.
pub open spec fn head(data: Seq<u8>, limit: nat) -> Seq<u8> {
    if data.len() <= limit {
        data
    } else {
        data.take(limit as int)
    }
}

fn head_of(data: &[u8], limit: usize) -> (r: &[u8])
    ensures
        r@ == head(data@, limit as nat),
{
    if data.len() <= limit {
        data
    } else {
        let r = slice_subrange(data, 0, limit);
        r
    }
}

/// The parser for single mail messages.
#[derive(Debug, Clone, Copy)]
pub struct EmlParser;

impl EmlParser {
    pub fn new() -> (r: EmlParser) {
        EmlParser
    }

    pub fn format(&self) -> (r: Format)
        ensures
            r.deep_view() == format_of(
                "message/rfc822",
                "eml",
                FormatFamily::Email,
                "Email Message",
                false,
            ),
    {
        Format::make("message/rfc822", "eml", FormatFamily::Email, "Email Message", false)
    }

    /// Whether the first 1024 bytes hold a `From:` header and a `To:` or `Subject:` header.
    pub open spec fn spec_can_parse(data: Seq<u8>) -> bool {
        let text = head(data, 1024);
        spec_contains(text, lit("From:")) && (spec_contains(text, lit("To:")) || spec_contains(
            text,
            lit("Subject:"),
        ))
    }

    pub fn can_parse(&self, data: &[u8]) -> (r: bool)
        ensures
            r == Self::spec_can_parse(data@),
    {
        let text = head_of(data, 1024);
        contains(text, "From:".as_bytes()) && (contains(text, "To:".as_bytes()) || contains(
            text,
            "Subject:".as_bytes(),
        ))
    }

    pub fn metadata(&self) -> (r: ParserMetadata)
        ensures
            r.deep_view() == legacy_parser_metadata("EML Parser"@),
    {
        describe_text_parser("EML Parser")
    }
}

/// The parser for calendar files.
#[derive(Debug, Clone, Copy)]
pub struct IcsParser;

impl IcsParser {
    pub fn new() -> (r: IcsParser) {
        IcsParser
    }

    pub fn format(&self) -> (r: Format)
        ensures
            r.deep_view() == format_of(
                "text/calendar",
                "ics",
                FormatFamily::Email,
                "iCalendar",
                false,
            ),
    {
        Format::make("text/calendar", "ics", FormatFamily::Email, "iCalendar", false)
    }

    /// Whether the first 512 bytes hold `BEGIN:VCALENDAR`.
    pub fn can_parse(&self, data: &[u8]) -> (r: bool)
        ensures
            r == spec_contains(head(data@, 512), lit("BEGIN:VCALENDAR")),
    {
        contains(head_of(data, 512), "BEGIN:VCALENDAR".as_bytes())
    }

    pub fn metadata(&self) -> (r: ParserMetadata)
        ensures
            r.deep_view() == legacy_parser_metadata("ICS Parser"@),
    {
        describe_text_parser("ICS Parser")
    }
}

/// The parser for mailboxes.
#[derive(Debug, Clone, Copy)]
pub struct MboxParser;

impl MboxParser {
    pub fn new() -> (r: MboxParser) {
        MboxParser
    }

    pub fn format(&self) -> (r: Format)
        ensures
            r.deep_view() == format_of(
                "application/mbox",
                "mbox",
                FormatFamily::Email,
                "Email Mailbox",
                true,
            ),
    {
        Format::make("application/mbox", "mbox", FormatFamily::Email, "Email Mailbox", true)
    }

    /// Whether `data` begins with `From ` and a space.
    pub fn can_parse(&self, data: &[u8]) -> (r: bool)
        ensures
            r == spec_starts_with(data@, lit("From ")),
    {
        starts_with(data, "From ".as_bytes())
    }

    pub fn metadata(&self) -> (r: ParserMetadata)
        ensures
            r.deep_view() == legacy_parser_metadata("MBOX Parser"@),
    {
        describe_text_parser("MBOX Parser")
    }
}

/// The parser for Outlook messages.
#[derive(Debug, Clone, Copy)]
pub struct MsgParser;

impl MsgParser {
    pub fn new() -> (r: MsgParser) {
        MsgParser
    }

    pub fn format(&self) -> (r: Format)
        ensures
            r.deep_view() == format_of(
                "application/vnd.ms-outlook",
                "msg",
                FormatFamily::Email,
                "Outlook Message",
                false,
            ),
    {
        Format::make(
            "application/vnd.ms-outlook",
            "msg",
            FormatFamily::Email,
            "Outlook Message",
            false,
        )
    }

    /// Whether `data` begins with the signature of an OLE2 compound file.
    pub fn can_parse(&self, data: &[u8]) -> (r: bool)
        ensures
            r == spec_holds_at(data@, 0, cfb_magic()),
    {
        is_ole2(data)
    }

    pub fn metadata(&self) -> (r: ParserMetadata)
        ensures
            r.deep_view() == legacy_parser_metadata("MSG Parser"@),
    {
        describe_text_parser("MSG Parser")
    }
}

/// The parser for contact cards.
#[derive(Debug, Clone, Copy)]
pub struct VcfParser;

impl VcfParser {
    pub fn new() -> (r: VcfParser) {
        VcfParser
    }

    pub fn format(&self) -> (r: Format)
        ensures
            r.deep_view() == format_of(
                "text/vcard",
                "vcf",
                FormatFamily::Email,
                "vCard Contact",
                false,
            ),
    {
        Format::make("text/vcard", "vcf", FormatFamily::Email, "vCard Contact", false)
    }

    /// Whether the first 512 bytes hold `BEGIN:VCARD`.
    pub fn can_parse(&self, data: &[u8]) -> (r: bool)
        ensures
            r == spec_contains(head(data@, 512), lit("BEGIN:VCARD")),
    {
        contains(head_of(data, 512), "BEGIN:VCARD".as_bytes())
    }

    pub fn metadata(&self) -> (r: ParserMetadata)
        ensures
            r.deep_view() == legacy_parser_metadata("VCF Parser"@),
    {
        describe_text_parser("VCF Parser")
    }
}

} // verus!
