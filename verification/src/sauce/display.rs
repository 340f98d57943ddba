//! A record shown as text, one field to a line.

use super::layout::Record;
use super::Sauce;
use crate::string::{decimal, push_decimal};
use vstd::prelude::*;
use vstd::string::StringExecFns;

verus! {

/// One line of text: a label, a value and the end of the line.
pub open spec fn line(label: Seq<char>, value: Seq<char>) -> Seq<char> {
    label + value + "\n"@
}

/// The text of a truth value.
pub open spec fn truth(value: bool) -> Seq<char> {
    if value {
        "true"@
    } else {
        "false"@
    }
}

/// A record shown as text, one field to a line.
pub open spec fn summary(record: Record) -> Seq<char> {
    line(
        "file: "@,
        match record.file {
            Some(file) => file,
            None => "None"@,
        },
    ) + line("title: "@, record.title) + line("author: "@, record.author) + line(
        "group: "@,
        record.group,
    ) + line("year: "@, record.year) + line("month: "@, record.month) + line(
        "date: "@,
        record.date,
    ) + line("filesize: "@, decimal(record.filesize)) + line(
        "actual filesize: "@,
        decimal(record.actual_filesize),
    ) + line(
        "datatype: "@,
        match record.datatype {
            Some(datatype) => datatype.name(),
            None => "None"@,
        },
    ) + line(
        "filetype: "@,
        match record.filetype {
            Some(filetype) => filetype.name(),
            None => "None"@,
        },
    ) + line("type info 1: "@, decimal(record.info_1)) + line(
        "type info 2: "@,
        decimal(record.info_2),
    ) + line("type info 3: "@, decimal(record.info_3)) + line(
        "type info 4: "@,
        decimal(record.info_4),
    ) + line("ice colors: "@, truth(record.ice_colors)) + (match record.letter_spacing {
        Some(letter_spacing) => line("letter spacing: "@, letter_spacing.name()),
        None => line("letter spacing not set"@, Seq::empty()),
    }) + (match record.aspect_ratio {
        Some(aspect_ratio) => line("aspect ratio: "@, aspect_ratio.name()),
        None => line("aspect ratio not set"@, Seq::empty()),
    }) + line("font name: "@, record.font_name) + (match record.comments {
        Some(comments) => line("comments: "@, comments),
        None => line("comments not set"@, Seq::empty()),
    })
}

/// Appends a line.
fn push_line(text: &mut String, label: &str, value: &str)
    ensures
        final(text)@ == old(text)@ + line(label@, value@),
{
    text.append(label);
    text.append(value);
    text.append("\n");
    assert(text@ =~= old(text)@ + line(label@, value@));
}

/// Appends a line that holds a number.
fn push_number_line(text: &mut String, label: &str, value: usize)
    ensures
        final(text)@ == old(text)@ + line(label@, decimal(value as nat)),
{
    let mut digits = String::new();
    push_decimal(&mut digits, value);
    assert(digits@ =~= decimal(value as nat));
    push_line(text, label, digits.as_str());
}

impl Sauce {
    /// The record shown as text, one field to a line.
    pub fn to_string(&self) -> (r: String)
        ensures
            r@ == summary(self@),
    {
        let mut text = String::new();
        match &self.file {
            Some(file) => push_line(&mut text, "file: ", file.as_str()),
            None => push_line(&mut text, "file: ", "None"),
        }
        assert(text@ =~= line(
            "file: "@,
            match self@.file {
                Some(file) => file,
                None => "None"@,
            },
        ));
        push_line(&mut text, "title: ", self.title.as_str());
        push_line(&mut text, "author: ", self.author.as_str());
        push_line(&mut text, "group: ", self.group.as_str());
        push_line(&mut text, "year: ", self.year.as_str());
        push_line(&mut text, "month: ", self.month.as_str());
        push_line(&mut text, "date: ", self.date.as_str());
        push_number_line(&mut text, "filesize: ", self.filesize);
        push_number_line(&mut text, "actual filesize: ", self.actual_filesize);
        match &self.datatype {
            Some(datatype) => {
                let name = datatype.to_string();
                push_line(&mut text, "datatype: ", name.as_str());
            },
            None => push_line(&mut text, "datatype: ", "None"),
        }
        match &self.filetype {
            Some(filetype) => {
                let name = filetype.to_string();
                push_line(&mut text, "filetype: ", name.as_str());
            },
            None => push_line(&mut text, "filetype: ", "None"),
        }
        push_number_line(&mut text, "type info 1: ", self.info_1);
        push_number_line(&mut text, "type info 2: ", self.info_2);
        push_number_line(&mut text, "type info 3: ", self.info_3);
        push_number_line(&mut text, "type info 4: ", self.info_4);
        if self.ice_colors {
            push_line(&mut text, "ice colors: ", "true");
        } else {
            push_line(&mut text, "ice colors: ", "false");
        }
        match &self.letter_spacing {
            Some(letter_spacing) => {
                let name = letter_spacing.to_string();
                push_line(&mut text, "letter spacing: ", name.as_str());
            },
            None => push_line(&mut text, "letter spacing not set", ""),
        }
        match &self.aspect_ratio {
            Some(aspect_ratio) => {
                let name = aspect_ratio.to_string();
                push_line(&mut text, "aspect ratio: ", name.as_str());
            },
            None => push_line(&mut text, "aspect ratio not set", ""),
        }
        push_line(&mut text, "font name: ", self.font_name.as_str());
        match &self.comments {
            Some(comments) => push_line(&mut text, "comments: ", comments.as_str()),
            None => push_line(&mut text, "comments not set", ""),
        }
        proof {
            reveal_strlit("");
            assert(""@ =~= Seq::<char>::empty());
        }
        text
    }
}

} // verus!
