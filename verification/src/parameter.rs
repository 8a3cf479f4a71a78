//! Classification of parameter keys.
//!
//! A key is made of sections separated by dots. The first section names the
//! parameter's type. For the type `x` the second section is the name of the
//! extension. The section after that, if there is one, is the number of the
//! resource that the parameter belongs to. Sections after the group are not
//! looked at.

use vstd::prelude::*;
use vstd::string::StrSliceExecFns;
use crate::decimal::{decimal_value, parse_decimal};
use crate::error::{Error, ErrorView};
use crate::text::{chars_of, head, section_end, sections_of_longer, tail};

verus! {

/// What a parameter says of its resource.
#[derive(Debug, PartialEq, Eq)]
pub enum ParameterType {
    /// `dn`: the name to show.
    DisplayName,
    /// `xl`: the size in bytes.
    Length,
    /// `xt`: a URN that holds a hash of the content.
    ExactTopic,
    /// `as`: a web address to fall back on.
    AcceptableSource,
    /// `xs`: a peer-to-peer address.
    ExactSource,
    /// `kt`: search keywords.
    KeywordTopic,
    /// `mt`: the address of a manifest.
    ManifestTopic,
    /// `tr`: the address of a tracker.
    Tracker,
    /// `x.<name>`: an extension, with its name.
    Extension(String),
}

/// A [`ParameterType`] with the extension's name as a character sequence.
pub enum ParameterTypeView {
    DisplayName,
    Length,
    ExactTopic,
    AcceptableSource,
    ExactSource,
    KeywordTopic,
    ManifestTopic,
    Tracker,
    Extension(Seq<char>),
}

impl View for ParameterType {
    type V = ParameterTypeView;

    open spec fn view(&self) -> ParameterTypeView {
        match self {
            ParameterType::DisplayName => ParameterTypeView::DisplayName,
            ParameterType::Length => ParameterTypeView::Length,
            ParameterType::ExactTopic => ParameterTypeView::ExactTopic,
            ParameterType::AcceptableSource => ParameterTypeView::AcceptableSource,
            ParameterType::ExactSource => ParameterTypeView::ExactSource,
            ParameterType::KeywordTopic => ParameterTypeView::KeywordTopic,
            ParameterType::ManifestTopic => ParameterTypeView::ManifestTopic,
            ParameterType::Tracker => ParameterTypeView::Tracker,
            ParameterType::Extension(name) => ParameterTypeView::Extension(name@),
        }
    }
}

/// A classified key: the parameter's type and, where the key carries one, the
/// number of the resource it belongs to.
#[derive(Debug, PartialEq, Eq)]
pub struct Parameter {
    pub param_type: ParameterType,
    pub group: Option<usize>,
}

/// A [`Parameter`] as a mathematical value.
pub struct ParameterView {
    pub param_type: ParameterTypeView,
    pub group: Option<nat>,
}

impl View for Parameter {
    type V = ParameterView;

    open spec fn view(&self) -> ParameterView {
        ParameterView {
            param_type: self.param_type@,
            group: match self.group {
                Some(n) => Some(n as nat),
                None => None,
            },
        }
    }
}

/// The type that a first section other than `x` names, if it names one.
pub open spec fn standard_type(tag: Seq<char>) -> Option<ParameterTypeView> {
    if tag == "dn"@ {
        Some(ParameterTypeView::DisplayName)
    } else if tag == "xl"@ {
        Some(ParameterTypeView::Length)
    } else if tag == "xt"@ {
        Some(ParameterTypeView::ExactTopic)
    } else if tag == "as"@ {
        Some(ParameterTypeView::AcceptableSource)
    } else if tag == "xs"@ {
        Some(ParameterTypeView::ExactSource)
    } else if tag == "kt"@ {
        Some(ParameterTypeView::KeywordTopic)
    } else if tag == "mt"@ {
        Some(ParameterTypeView::ManifestTopic)
    } else if tag == "tr"@ {
        Some(ParameterTypeView::Tracker)
    } else {
        None
    }
}

/// The parameter of type `param_type` whose key is `key`, where `rest` is
/// what the key holds after the type and the extension's name: nothing, or a
/// text whose first section is the group.
pub open spec fn with_group(
    param_type: ParameterTypeView,
    rest: Option<Seq<char>>,
    key: Seq<char>,
) -> Result<ParameterView, ErrorView> {
    match rest {
        None => Ok(ParameterView { param_type, group: None }),
        Some(r) => match decimal_value(head(r)) {
            Some(n) => Ok(ParameterView { param_type, group: Some(n) }),
            None => Err(ErrorView::InvalidGroupIndex(key)),
        },
    }
}

/// What the key `key` stands for, or why it stands for nothing.
pub open spec fn classify(key: Seq<char>) -> Result<ParameterView, ErrorView> {
    if head(key) == "x"@ {
        match tail(key) {
            None => Err(ErrorView::InvalidParameter(key)),
            Some(rest) => with_group(ParameterTypeView::Extension(head(rest)), tail(rest), key),
        }
    } else {
        match standard_type(head(key)) {
            None => Err(ErrorView::InvalidParameter(key)),
            Some(param_type) => with_group(param_type, tail(key), key),
        }
    }
}

/// What follows the group in a key does not change what the key stands for.
pub proof fn later_sections_are_ignored(key: Seq<char>, more: Seq<char>)
    requires
        classify(key) matches Ok(p) && p.group is Some,
    ensures
        classify(key + seq!['.'] + more) == classify(key),
{
    sections_of_longer(key, more);
    if head(key) == "x"@ {
        let rest = tail(key)->Some_0;
        sections_of_longer(rest, more);
        sections_of_longer(tail(rest)->Some_0, more);
    } else {
        sections_of_longer(tail(key)->Some_0, more);
    }
}

/// The outcome of [`Parameter::parse`] as a mathematical value.
pub open spec fn classified(r: Result<Parameter, Error>) -> Result<ParameterView, ErrorView> {
    match r {
        Ok(p) => Ok(p@),
        Err(e) => Err(e@),
    }
}

/// Tells which standard type the first `end` characters of `chars` name.
fn standard_type_of(chars: &Vec<char>, end: usize) -> (found: Option<ParameterType>)
    requires
        end <= chars.len(),
    ensures
        match found {
            Some(t) => standard_type(chars@.take(end as int)) == Some(t@),
            None => standard_type(chars@.take(end as int)) is None,
        },
{
    let ghost tag = chars@.take(end as int);
    proof {
        reveal_strlit("dn");
        reveal_strlit("xl");
        reveal_strlit("xt");
        reveal_strlit("as");
        reveal_strlit("xs");
        reveal_strlit("kt");
        reveal_strlit("mt");
        reveal_strlit("tr");
    }
    assert(tag.len() == end);
    if end != 2 {
        return None;
    }
    let a = chars[0];
    let b = chars[1];
    assert(tag[0] == a && tag[1] == b);
    if a == 'd' && b == 'n' {
        assert(tag =~= "dn"@);
        Some(ParameterType::DisplayName)
    } else if a == 'x' && b == 'l' {
        assert(tag =~= "xl"@);
        Some(ParameterType::Length)
    } else if a == 'x' && b == 't' {
        assert(tag =~= "xt"@);
        Some(ParameterType::ExactTopic)
    } else if a == 'a' && b == 's' {
        assert(tag =~= "as"@);
        Some(ParameterType::AcceptableSource)
    } else if a == 'x' && b == 's' {
        assert(tag =~= "xs"@);
        Some(ParameterType::ExactSource)
    } else if a == 'k' && b == 't' {
        assert(tag =~= "kt"@);
        Some(ParameterType::KeywordTopic)
    } else if a == 'm' && b == 't' {
        assert(tag =~= "mt"@);
        Some(ParameterType::ManifestTopic)
    } else if a == 't' && b == 'r' {
        assert(tag =~= "tr"@);
        Some(ParameterType::Tracker)
    } else {
        None
    }
}

impl Parameter {
    /// Classifies the key `s`.
    ///
    /// The key is rejected as [`Error::InvalidParameter`] when its first
    /// section names no type, or names `x` and no section follows; as
    /// [`Error::InvalidGroupIndex`] when the section that should hold the
    /// group is no decimal number that fits `usize`.
    pub fn parse(s: &str) -> (r: Result<Parameter, Error>)
        ensures
            classified(r) == classify(s@),
    {
        let chars = chars_of(s);
        let len: usize = chars.len();
        assert(chars@.skip(0) == s@);
        let tag_end: usize = section_end(&chars, 0);
        assert(chars@.take(tag_end as int) == head(s@));
        proof {
            reveal_strlit("x");
        }
        let param_type: ParameterType;
        let after: usize;
        if tag_end == 1 && chars[0] == 'x' {
            assert(head(s@) =~= "x"@);
            if tag_end == len {
                return Err(Error::InvalidParameter(s.to_owned()));
            }
            let name_end: usize = section_end(&chars, tag_end + 1);
            param_type = ParameterType::Extension(
                s.substring_char(tag_end + 1, name_end).to_owned(),
            );
            after = name_end;
        } else {
            assert(head(s@) != "x"@);
            match standard_type_of(&chars, tag_end) {
                Some(t) => {
                    param_type = t;
                },
                None => {
                    return Err(Error::InvalidParameter(s.to_owned()));
                },
            }
            after = tag_end;
        }
        if after == len {
            return Ok(Parameter { param_type, group: None });
        }
        let group_end: usize = section_end(&chars, after + 1);
        match parse_decimal(&chars, after + 1, group_end) {
            Some(n) => Ok(Parameter { param_type, group: Some(n) }),
            None => Err(Error::InvalidGroupIndex(s.to_owned())),
        }
    }
}

} // verus!
