//! The user's preferences: which tool is the favorite, starred in the tray. The file is JSON,
//! `{"favorite": "<id>"}`; an older shape, `{"favorites": [...]}`, is still read.

use vstd::prelude::*;
use crate::json::{JsonValue, JsonView, json_text, parse, get, as_str, as_array, to_pretty,
    pretty_text, single_member, string_value, flat_object};
use crate::text::{str_eq, concat2};

verus! {

/// A tool that can be starred.
#[derive(Debug, Clone, Copy, PartialEq, Eq, Structural)]
pub enum Favorite {
    Grok,
    CommandCode,
    OpenCode,
}

/// The name shown for a favorite.
pub open spec fn favorite_label(f: Favorite) -> Seq<char> {
    match f {
        Favorite::Grok => "Grok"@,
        Favorite::CommandCode => "Command Code"@,
        Favorite::OpenCode => "OpenCode"@,
    }
}

/// The id a favorite is stored under (its name in camelCase).
pub open spec fn favorite_id(f: Favorite) -> Seq<char> {
    match f {
        Favorite::Grok => "grok"@,
        Favorite::CommandCode => "commandCode"@,
        Favorite::OpenCode => "openCode"@,
    }
}

/// The favorite stored under `id`, if any.
pub open spec fn favorite_of(id: Seq<char>) -> Option<Favorite> {
    if id == "grok"@ {
        Some(Favorite::Grok)
    } else if id == "commandCode"@ {
        Some(Favorite::CommandCode)
    } else if id == "openCode"@ {
        Some(Favorite::OpenCode)
    } else {
        None
    }
}

impl Favorite {
    /// Every favorite, in the order the panel offers them.
    pub const ALL: [Favorite; 3] = [Favorite::Grok, Favorite::CommandCode, Favorite::OpenCode];

    /// The name shown for this favorite.
    pub fn label(self) -> (r: &'static str)
        ensures
            r@ == favorite_label(self),
    {
        match self {
            Favorite::Grok => "Grok",
            Favorite::CommandCode => "Command Code",
            Favorite::OpenCode => "OpenCode",
        }
    }

    /// The id this favorite is stored under.
    pub fn id(self) -> (r: &'static str)
        ensures
            r@ == favorite_id(self),
    {
        match self {
            Favorite::Grok => "grok",
            Favorite::CommandCode => "commandCode",
            Favorite::OpenCode => "openCode",
        }
    }

    /// The favorite stored under `id`, if `id` names one.
    pub fn from_id(id: &str) -> (r: Option<Favorite>)
        ensures
            r == favorite_of(id@),
    {
        if str_eq(id, "grok") {
            Some(Favorite::Grok)
        } else if str_eq(id, "commandCode") {
            Some(Favorite::CommandCode)
        } else if str_eq(id, "openCode") {
            Some(Favorite::OpenCode)
        } else {
            None
        }
    }
}

/// The preferences: the starred tool, if any.
#[derive(Debug, Clone, Copy, PartialEq, Eq, Structural)]
pub struct Preferences {
    pub favorite: Option<Favorite>,
}

impl Default for Preferences {
    /// Command Code is starred until the user says otherwise.
    fn default() -> (r: Preferences)
        ensures
            r.favorite == Some(Favorite::CommandCode),
    {
        Preferences { favorite: Some(Favorite::CommandCode) }
    }
}

/// The first entry of a legacy `favorites` array that is the id of a favorite.
pub open spec fn first_known(items: Seq<JsonView>) -> Option<Favorite>
    decreases items.len(),
{
    if items.len() == 0 {
        None
    } else {
        match as_str(items[0]) {
            Some(id) => match favorite_of(id) {
                Some(f) => Some(f),
                None => first_known(items.drop_first()),
            },
            None => first_known(items.drop_first()),
        }
    }
}

/// The favorite a preferences document holds: `favorite` when present (a known id, else the
/// default; anything but a string clears it), else the first known entry of the legacy
/// `favorites` array, else the default.
pub open spec fn favorite_in(doc: JsonView) -> Option<Favorite> {
    match get(doc, "favorite"@) {
        Some(entry) => match as_str(entry) {
            Some(id) => match favorite_of(id) {
                Some(f) => Some(f),
                None => Some(Favorite::CommandCode),
            },
            None => None,
        },
        None => match get(doc, "favorites"@) {
            Some(list) => match as_array(list) {
                Some(items) => match first_known(items) {
                    Some(f) => Some(f),
                    None => Some(Favorite::CommandCode),
                },
                None => Some(Favorite::CommandCode),
            },
            None => Some(Favorite::CommandCode),
        },
    }
}

/// The favorite read from the preferences file: the default when the file cannot be read or
/// is not JSON.
pub open spec fn loaded_favorite(text: Option<Seq<char>>) -> Option<Favorite> {
    match text {
        None => Some(Favorite::CommandCode),
        Some(t) => match json_text(t) {
            Ok(doc) => favorite_in(doc),
            Err(_) => Some(Favorite::CommandCode),
        },
    }
}

/// The document the preferences are saved as: `{"favorite": <id or null>}`.
pub open spec fn preferences_doc(favorite: Option<Favorite>) -> JsonView {
    JsonView::Object(
        seq![
            (
                "favorite"@,
                match favorite {
                    Some(f) => JsonView::Str(favorite_id(f)),
                    None => JsonView::Null,
                },
            ),
        ],
    )
}

impl Preferences {
    /// Preferences with `favorite` starred (or nothing, with `None`).
    pub fn with_favorite(favorite: Option<Favorite>) -> (r: Preferences)
        ensures
            r.favorite == favorite,
    {
        Preferences { favorite }
    }

    /// The preferences read from the text of the preferences file (`None` when the file
    /// could not be read).
    pub fn load(text: Option<&str>) -> (r: Preferences)
        ensures
            r.favorite == loaded_favorite(
                match text {
                    Some(t) => Some(t@),
                    None => None,
                },
            ),
    {
        let t = match text {
            Some(t) => t,
            None => return Preferences::default(),
        };
        let doc = match parse(t) {
            Ok(v) => v,
            Err(_) => return Preferences::default(),
        };
        if let Some(entry) = doc.get("favorite") {
            return match entry.as_str() {
                Some(id) => match Favorite::from_id(id.as_str()) {
                    Some(f) => Preferences::with_favorite(Some(f)),
                    None => Preferences::default(),
                },
                None => Preferences::with_favorite(None),
            };
        }
        let items = match doc.get("favorites") {
            Some(list) => list.as_array(),
            None => None,
        };
        match items {
            Some(items) => {
                let ghost iv = crate::json::items_view(items@);
                let ghost tv: Option<Seq<char>> = match text {
                    Some(t) => Some(t@),
                    None => None,
                };
                assert(iv.skip(0) =~= iv);
                assert(loaded_favorite(tv) == match first_known(iv) {
                    Some(f) => Some(f),
                    None => Some(Favorite::CommandCode),
                });
                let mut i: usize = 0;
                while i < items.len()
                    invariant
                        i <= items@.len(),
                        iv == crate::json::items_view(items@),
                        tv == match text {
                            Some(t) => Some(t@),
                            None => None::<Seq<char>>,
                        },
                        loaded_favorite(tv) == match first_known(iv) {
                            Some(f) => Some(f),
                            None => Some(Favorite::CommandCode),
                        },
                        first_known(iv) == first_known(iv.skip(i as int)),
                    decreases items@.len() - i,
                {
                    proof {
                        assert(iv.skip(i as int).drop_first() =~= iv.skip(i + 1));
                        assert(iv.skip(i as int)[0] == items@[i as int]@);
                    }
                    if let Some(id) = items[i].as_str() {
                        if let Some(f) = Favorite::from_id(id.as_str()) {
                            return Preferences::with_favorite(Some(f));
                        }
                    }
                    i += 1;
                }
                proof {
                    assert(iv.skip(items@.len() as int).len() == 0);
                }
                Preferences::default()
            },
            None => Preferences::default(),
        }
    }

    /// The text the preferences file is written with: the document, pretty-printed, and a
    /// final newline.
    ///
    /// Law: the file reads back as the same preferences (`load(Some(&p.save()))` is `p`).
    pub fn save(&self) -> (r: String)
        ensures
            r@ == pretty_text(preferences_doc(self.favorite)) + "\n"@,
            loaded_favorite(Some(r@)) == self.favorite,
    {
        let value = match self.favorite {
            Some(f) => string_value(f.id()),
            None => JsonValue::Null,
        };
        let doc = single_member("favorite", value);
        proof {
            assert(doc@ == preferences_doc(self.favorite));
            assert(flat_object(doc@));
        }
        let body = to_pretty(&doc);
        let r = concat2(body.as_str(), "\n");
        proof {
            reveal_strlit("favorite");
            reveal_strlit("grok");
            reveal_strlit("commandCode");
            reveal_strlit("openCode");
            assert(get(doc@, "favorite"@) == Some(doc@->Object_0[0].1));
            assert(json_text(r@) == Ok::<JsonView, Seq<char>>(doc@));
            assert("grok"@.len() == 4 && "commandCode"@.len() == 11 && "openCode"@.len() == 8);
            match self.favorite {
                Some(f) => assert(favorite_of(favorite_id(f)) == Some(f)),
                None => {},
            }
            assert(favorite_in(doc@) == self.favorite);
        }
        r
    }
}

} // verus!
