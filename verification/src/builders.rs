//! Builder-style declarations of fields and templates, as the caller writes
//! them before a note-type fixes their serialized shape.

use crate::db_entries::{Fld, Tmpl};
use vstd::prelude::*;

verus! {

/// Default value of an optional boolean attribute.
pub open spec fn opt_bool_or(o: Option<bool>, d: bool) -> bool {
    match o {
        Option::Some(b) => b,
        Option::None => d,
    }
}

/// Default value of an optional integer attribute.
pub open spec fn opt_i64_or(o: Option<i64>, d: i64) -> i64 {
    match o {
        Option::Some(v) => v,
        Option::None => d,
    }
}

/// View of an optional string attribute with a default.
pub open spec fn opt_str_or(o: Option<String>, d: Seq<char>) -> Seq<char> {
    match o {
        Option::Some(s) => s@,
        Option::None => d,
    }
}

/// A field declaration: a name plus display attributes, each attribute
/// falling back to a default when unset.
#[derive(Clone, Debug)]
pub struct Field {
    pub name: String,
    pub sticky: Option<bool>,
    pub rtl: Option<bool>,
    pub font: Option<String>,
    pub size: Option<i64>,
}

/// The serialized shape a field declaration denotes: unset attributes have
/// their defaults and the ordinal starts at zero.
pub open spec fn fld_matches(f: Field, r: Fld) -> bool {
    &&& r.name@ == f.name@
    &&& r.sticky == opt_bool_or(f.sticky, false)
    &&& r.rtl == opt_bool_or(f.rtl, false)
    &&& r.font@ == opt_str_or(f.font, "Liberation Sans"@)
    &&& r.size == opt_i64_or(f.size, 20)
    &&& r.ord == 0
}

impl Field {
    /// Creates a new field with a `name`.
    pub fn new(name: &str) -> (f: Field)
        ensures
            f.name@ == name@,
            f.sticky is None,
            f.rtl is None,
            f.font is None,
            f.size is None,
    {
        Field { name: name.to_owned(), sticky: None, rtl: None, font: None, size: None }
    }

    /// Sets the font of the field.
    pub fn font(self, value: &str) -> (f: Field)
        ensures
            f.name == self.name,
            f.sticky == self.sticky,
            f.rtl == self.rtl,
            f.font matches Some(v) && v@ == value@,
            f.size == self.size,
    {
        Field { font: Some(value.to_owned()), ..self }
    }

    /// Sets whether the field is rendered right-to-left.
    pub fn rtl(self, value: bool) -> (f: Field)
        ensures
            f.name == self.name,
            f.sticky == self.sticky,
            f.rtl == Some(value),
            f.font == self.font,
            f.size == self.size,
    {
        Field { rtl: Some(value), ..self }
    }

    /// Sets whether the field keeps its value in the editor between notes.
    pub fn sticky(self, value: bool) -> (f: Field)
        ensures
            f.name == self.name,
            f.sticky == Some(value),
            f.rtl == self.rtl,
            f.font == self.font,
            f.size == self.size,
    {
        Field { sticky: Some(value), ..self }
    }

    /// Sets the font size of the field.
    pub fn size(self, value: i64) -> (f: Field)
        ensures
            f.name == self.name,
            f.sticky == self.sticky,
            f.rtl == self.rtl,
            f.font == self.font,
            f.size == Some(value),
    {
        Field { size: Some(value), ..self }
    }

    /// Fixes the serialized shape of this field declaration.
    pub fn into_fld(self) -> (r: Fld)
        ensures
            fld_matches(self, r),
    {
        let font = match self.font {
            Some(f) => f,
            None => "Liberation Sans".to_owned(),
        };
        Fld {
            name: self.name,
            sticky: match self.sticky {
                Some(b) => b,
                None => false,
            },
            rtl: match self.rtl {
                Some(b) => b,
                None => false,
            },
            ord: 0,
            font,
            size: match self.size {
                Some(v) => v,
                None => 20,
            },
        }
    }
}

/// A template declaration: a name plus optional rendering patterns, each
/// pattern falling back to the empty string when unset.
#[derive(Clone, Debug)]
pub struct Template {
    pub name: String,
    pub qfmt: Option<String>,
    pub did: Option<i64>,
    pub bafmt: Option<String>,
    pub afmt: Option<String>,
    pub bqfmt: Option<String>,
}

/// The serialized shape a template declaration denotes: unset patterns are
/// empty and the ordinal starts at zero.
pub open spec fn tmpl_matches(t: Template, r: Tmpl) -> bool {
    &&& r.name@ == t.name@
    &&& r.qfmt@ == opt_str_or(t.qfmt, Seq::empty())
    &&& r.did == t.did
    &&& r.bafmt@ == opt_str_or(t.bafmt, Seq::empty())
    &&& r.afmt@ == opt_str_or(t.afmt, Seq::empty())
    &&& r.bqfmt@ == opt_str_or(t.bqfmt, Seq::empty())
    &&& r.ord == 0
}

impl Template {
    /// Creates a new template with a `name`.
    pub fn new(name: &str) -> (t: Template)
        ensures
            t.name@ == name@,
            t.qfmt is None,
            t.did is None,
            t.bafmt is None,
            t.afmt is None,
            t.bqfmt is None,
    {
        Template { name: name.to_owned(), qfmt: None, did: None, bafmt: None, afmt: None, bqfmt: None }
    }

    /// Sets the question-rendering pattern.
    pub fn qfmt(self, qfmt: &str) -> (t: Template)
        ensures
            t.name == self.name,
            t.qfmt matches Some(v) && v@ == qfmt@,
            t.did == self.did,
            t.bafmt == self.bafmt,
            t.afmt == self.afmt,
            t.bqfmt == self.bqfmt,
    {
        Template { qfmt: Some(qfmt.to_owned()), ..self }
    }

    /// Sets the deck identifier override of the template.
    pub fn did(self, did: i64) -> (t: Template)
        ensures
            t.name == self.name,
            t.qfmt == self.qfmt,
            t.did == Some(did),
            t.bafmt == self.bafmt,
            t.afmt == self.afmt,
            t.bqfmt == self.bqfmt,
    {
        Template { did: Some(did), ..self }
    }

    /// Sets the browser answer-rendering pattern.
    pub fn bafmt(self, bafmt: &str) -> (t: Template)
        ensures
            t.name == self.name,
            t.qfmt == self.qfmt,
            t.did == self.did,
            t.bafmt matches Some(v) && v@ == bafmt@,
            t.afmt == self.afmt,
            t.bqfmt == self.bqfmt,
    {
        Template { bafmt: Some(bafmt.to_owned()), ..self }
    }

    /// Sets the answer-rendering pattern.
    pub fn afmt(self, afmt: &str) -> (t: Template)
        ensures
            t.name == self.name,
            t.qfmt == self.qfmt,
            t.did == self.did,
            t.bafmt == self.bafmt,
            t.afmt matches Some(v) && v@ == afmt@,
            t.bqfmt == self.bqfmt,
    {
        Template { afmt: Some(afmt.to_owned()), ..self }
    }

    /// Sets the browser question-rendering pattern.
    pub fn bqfmt(self, bqfmt: &str) -> (t: Template)
        ensures
            t.name == self.name,
            t.qfmt == self.qfmt,
            t.did == self.did,
            t.bafmt == self.bafmt,
            t.afmt == self.afmt,
            t.bqfmt matches Some(v) && v@ == bqfmt@,
    {
        Template { bqfmt: Some(bqfmt.to_owned()), ..self }
    }

    /// Fixes the serialized shape of this template declaration.
    pub fn into_tmpl(self) -> (r: Tmpl)
        ensures
            tmpl_matches(self, r),
    {
        Tmpl {
            name: self.name,
            qfmt: match self.qfmt {
                Some(s) => s,
                None => String::new(),
            },
            did: self.did,
            bafmt: match self.bafmt {
                Some(s) => s,
                None => String::new(),
            },
            afmt: match self.afmt {
                Some(s) => s,
                None => String::new(),
            },
            ord: 0,
            bqfmt: match self.bqfmt {
                Some(s) => s,
                None => String::new(),
            },
        }
    }
}

} // verus!
