//! The attributes of a template definition: where its source comes from, and
//! the name under which the data is bound.

use crate::errors::Error;
use vstd::prelude::*;
use vstd::string::*;

verus! {

/// The mathematical value of a set of attributes.
pub struct Settings {
    /// The file that holds the template source.
    pub path: Option<Seq<char>>,
    /// The template source itself.
    pub source: Option<Seq<char>>,
    /// The name that code fragments use for the data.
    pub context: Option<Seq<char>>,
}

/// The attributes of a template definition.
#[derive(Debug, Clone)]
pub struct Attributes {
    pub path: Option<String>,
    pub source: Option<String>,
    pub context: Option<String>,
}

/// Where a template source comes from.
#[derive(Debug, Clone)]
pub enum Origin {
    /// It is read from the file at this path.
    File(String),
    /// It is this text.
    Inline(String),
}

/// The mathematical value of an origin.
pub enum Place {
    File(Seq<char>),
    Inline(Seq<char>),
}

impl View for Origin {
    type V = Place;

    open spec fn view(&self) -> Place {
        match self {
            Origin::File(path) => Place::File(path@),
            Origin::Inline(text) => Place::Inline(text@),
        }
    }
}

/// The view of an optional string.
pub open spec fn text_of(s: Option<String>) -> Option<Seq<char>> {
    match s {
        Some(text) => Some(text@),
        None => None,
    }
}

impl View for Attributes {
    type V = Settings;

    open spec fn view(&self) -> Settings {
        Settings {
            path: text_of(self.path),
            source: text_of(self.source),
            context: text_of(self.context),
        }
    }
}

/// The message for a definition that names both a file and a source.
pub open spec fn both_message() -> Seq<char> {
    "Cannot specify both 'path' and 'source'"@
}

/// The message for a key that is none of the three.
pub open spec fn unknown_key_message() -> Seq<char> {
    "Expected 'path', 'source', or 'context' attribute"@
}

/// The message for a definition that names neither a file nor a source.
pub open spec fn no_source_message() -> Seq<char> {
    "Either 'path' or 'source' attribute must be provided"@
}

/// The settings after `key = value` is read, or the message of the error:
/// `path` and `source` exclude each other, `context` is always taken, a
/// later value for a key replaces an earlier one, and no other key is known.
pub open spec fn accept(settings: Settings, key: Seq<char>, value: Seq<char>) -> Result<
    Settings,
    Seq<char>,
> {
    if key == "path"@ {
        if settings.source is Some {
            Err(both_message())
        } else {
            Ok(Settings { path: Some(value), ..settings })
        }
    } else if key == "source"@ {
        if settings.path is Some {
            Err(both_message())
        } else {
            Ok(Settings { source: Some(value), ..settings })
        }
    } else if key == "context"@ {
        Ok(Settings { context: Some(value), ..settings })
    } else {
        Err(unknown_key_message())
    }
}

/// The settings after all of `pairs` are read from nothing, in order, or the
/// message of the first error.
pub open spec fn accept_all(pairs: Seq<(Seq<char>, Seq<char>)>) -> Result<Settings, Seq<char>>
    decreases pairs.len(),
{
    if pairs.len() == 0 {
        Ok(Settings { path: None, source: None, context: None })
    } else {
        match accept_all(pairs.drop_last()) {
            Ok(settings) => accept(settings, pairs.last().0, pairs.last().1),
            Err(message) => Err(message),
        }
    }
}

/// The views of a sequence of pairs of strings.
pub open spec fn pairs_of(pairs: Seq<(String, String)>) -> Seq<(Seq<char>, Seq<char>)> {
    pairs.map_values(|p: (String, String)| (p.0@, p.1@))
}

/// Where the source of a definition with these settings comes from: the
/// file where one is named, else the source where one is given.
pub open spec fn origin_of(settings: Settings) -> Option<Place> {
    match settings.path {
        Some(path) => Some(Place::File(path)),
        None => match settings.source {
            Some(text) => Some(Place::Inline(text)),
            None => None,
        },
    }
}

/// The name under which the data is bound: `props` unless another is set.
pub open spec fn context_of(settings: Settings) -> Seq<char> {
    match settings.context {
        Some(name) => name,
        None => "props"@,
    }
}

fn same_text(a: &str, b: &str) -> (same: bool)
    ensures
        same == (a@ == b@),
{
    String::from_str(a) == String::from_str(b)
}

impl Attributes {
    /// Attributes with nothing set.
    pub fn new() -> (attributes: Self)
        ensures
            attributes@ == (Settings { path: None, source: None, context: None }),
    {
        Attributes { path: None, source: None, context: None }
    }

    /// The attributes of a definition that consists of the source alone.
    pub fn from_literal(source: String) -> (attributes: Self)
        ensures
            attributes@ == (Settings { path: None, source: Some(source@), context: None }),
    {
        Attributes { path: None, source: Some(source), context: None }
    }

    /// Reads one `key = value`. On an error the attributes stay as they were.
    pub fn set(&mut self, key: &str, value: String) -> (r: Result<(), Error>)
        ensures
            match accept(old(self)@, key@, value@) {
                Ok(settings) => r is Ok && final(self)@ == settings,
                Err(message) => r matches Err(Error::InvalidSyntax(msg)) && msg@ == message
                    && final(self)@ == old(self)@,
            },
    {
        if same_text(key, "path") {
            if self.source.is_some() {
                return Err(
                    Error::InvalidSyntax(String::from_str("Cannot specify both 'path' and 'source'")),
                );
            }
            self.path = Some(value);
            Ok(())
        } else if same_text(key, "source") {
            if self.path.is_some() {
                return Err(
                    Error::InvalidSyntax(String::from_str("Cannot specify both 'path' and 'source'")),
                );
            }
            self.source = Some(value);
            Ok(())
        } else if same_text(key, "context") {
            self.context = Some(value);
            Ok(())
        } else {
            Err(
                Error::InvalidSyntax(
                    String::from_str("Expected 'path', 'source', or 'context' attribute"),
                ),
            )
        }
    }

    /// Reads a list of `key = value` pairs, in order. The first pair that is
    /// refused ends the reading with its error.
    pub fn parse(pairs: &Vec<(String, String)>) -> (r: Result<Attributes, Error>)
        ensures
            match accept_all(pairs_of(pairs@)) {
                Ok(settings) => r matches Ok(attributes) && attributes@ == settings,
                Err(message) => r matches Err(Error::InvalidSyntax(msg)) && msg@ == message,
            },
    {
        let ghost all = pairs_of(pairs@);
        let mut attributes = Attributes::new();
        let mut i: usize = 0;
        assert(all.take(0) =~= Seq::<(Seq<char>, Seq<char>)>::empty());
        while i < pairs.len()
            invariant
                i <= pairs.len(),
                all == pairs_of(pairs@),
                accept_all(all.take(i as int)) == Ok::<Settings, Seq<char>>(attributes@),
            decreases pairs.len() - i,
        {
            assert(all.take(i + 1).drop_last() =~= all.take(i as int));
            assert(all.take(i + 1).last() == (pairs@[i as int].0@, pairs@[i as int].1@));
            match attributes.set(pairs[i].0.as_str(), pairs[i].1.clone()) {
                Ok(()) => {},
                Err(e) => {
                    proof {
                        lemma_first_error_stays(all, i + 1);
                    }
                    return Err(e);
                },
            }
            i += 1;
        }
        assert(all.take(pairs.len() as int) =~= all);
        Ok(attributes)
    }

    /// Where the template source comes from. A definition that names
    /// neither a file nor a source is refused.
    pub fn origin(&self) -> (r: Result<Origin, Error>)
        ensures
            match origin_of(self@) {
                Some(place) => r matches Ok(origin) && origin@ == place,
                None => r matches Err(Error::InvalidSyntax(msg)) && msg@ == no_source_message(),
            },
    {
        match &self.path {
            Some(path) => Ok(Origin::File(path.clone())),
            None => match &self.source {
                Some(text) => Ok(Origin::Inline(text.clone())),
                None => Err(
                    Error::InvalidSyntax(
                        String::from_str("Either 'path' or 'source' attribute must be provided"),
                    ),
                ),
            },
        }
    }

    /// The name under which code fragments find the data.
    pub fn context_name(&self) -> (name: String)
        ensures
            name@ == context_of(self@),
    {
        match &self.context {
            Some(name) => name.clone(),
            None => String::from_str("props"),
        }
    }
}

/// Once a pair has been refused, reading any longer list of pairs ends with
/// that same error.
pub proof fn lemma_first_error_stays(pairs: Seq<(Seq<char>, Seq<char>)>, n: int)
    requires
        0 <= n <= pairs.len(),
        accept_all(pairs.take(n)) is Err,
    ensures
        accept_all(pairs) == accept_all(pairs.take(n)),
    decreases pairs.len() - n,
{
    if n == pairs.len() {
        assert(pairs.take(n) =~= pairs);
    } else {
        assert(pairs.take(n + 1).drop_last() =~= pairs.take(n));
        lemma_first_error_stays(pairs, n + 1);
    }
}

} // verus!
