//! The post-upload callback: what the remote side is asked to call once the
//! object is final.

use vstd::prelude::*;
use crate::engine::text_view;

verus! {

/// How the callback body is encoded.
#[derive(Clone, Copy, Debug, PartialEq, Eq, Structural)]
pub enum CallbackBodyType {
    Json,
    FormUrlEncoded,
}

/// A callback descriptor: the address to call, the body template, its
/// encoding and the caller's free-form variables.
#[derive(Clone, Debug, PartialEq, Eq)]
pub struct CallbackSpec {
    pub url: String,
    pub body: String,
    pub body_type: CallbackBodyType,
    pub custom_variables: Vec<(String, String)>,
}

/// What a `CallbackSpec` holds.
pub struct CallbackView {
    pub url: Seq<char>,
    pub body: Seq<char>,
    pub body_type: CallbackBodyType,
    pub custom_variables: Seq<(Seq<char>, Seq<char>)>,
}

/// A list of string pairs, each string as its characters.
pub open spec fn pairs_view(pairs: Seq<(String, String)>) -> Seq<(Seq<char>, Seq<char>)> {
    Seq::new(pairs.len(), |i: int| (pairs[i].0@, pairs[i].1@))
}

impl View for CallbackSpec {
    type V = CallbackView;

    open spec fn view(&self) -> CallbackView {
        CallbackView {
            url: self.url@,
            body: self.body@,
            body_type: self.body_type,
            custom_variables: pairs_view(self.custom_variables@),
        }
    }
}

/// An optional callback, as its view.
pub open spec fn callback_view(callback: Option<CallbackSpec>) -> Option<CallbackView> {
    match callback {
        Some(c) => Some(c@),
        None => None,
    }
}

/// The members of the JSON object that a text holds, in the order in which
/// `serde_json` walks them: each with its key and, where its value is a
/// string, that string. `None` where the text is no JSON document, or is a
/// document other than an object.
pub uninterp spec fn json_object_members(text: Seq<char>) -> Option<
    Seq<(Seq<char>, Option<Seq<char>>)>,
>;

/// A list of members, each as its view.
pub open spec fn members_view(members: Seq<(String, Option<String>)>) -> Seq<
    (Seq<char>, Option<Seq<char>>),
> {
    Seq::new(members.len(), |i: int| (members[i].0@, text_view(members[i].1)))
}

/// An optional list of members, as its view.
pub open spec fn document_view(document: Option<Vec<(String, Option<String>)>>) -> Option<
    Seq<(Seq<char>, Option<Seq<char>>)>,
> {
    match document {
        Some(members) => Some(members_view(members@)),
        None => None,
    }
}

/// `serde_json::from_str`, then `Value::as_object`, the object's `iter` and
/// `Value::as_str` on each member: the members of the JSON object in
/// `text`, each string value copied out, or `None` where parsing fails or
/// the document is no object.
#[verifier::external_body]
fn object_members(text: &str) -> (document: Option<Vec<(String, Option<String>)>>)
    ensures
        document_view(document) == json_object_members(text@),
{
    let value: serde_json::Value = serde_json::from_str(text).ok()?;
    let object = value.as_object()?;
    Some(object.iter().map(|(key, member)| (key.clone(), member.as_str().map(str::to_owned))).collect())
}

/// `needle` occurs in `haystack`.
pub open spec fn has_substring(haystack: Seq<char>, needle: Seq<char>) -> bool {
    exists|i: int|
        0 <= i <= haystack.len() - needle.len() && #[trigger] haystack.subrange(
            i,
            i + needle.len(),
        ) == needle
}

/// `str::contains` with a string as the pattern: whether the pattern
/// occurs in the text.
#[verifier::external_body]
fn text_contains(haystack: &str, needle: &str) -> (found: bool)
    ensures
        found == has_substring(haystack@, needle@),
{
    haystack.contains(needle)
}

/// The first member with the given key, if any.
pub open spec fn member_at(members: Seq<(Seq<char>, Option<Seq<char>>)>, key: Seq<char>) -> Option<
    Option<Seq<char>>,
>
    decreases members.len(),
{
    if members.len() == 0 {
        None
    } else if members.first().0 == key {
        Some(members.first().1)
    } else {
        member_at(members.drop_first(), key)
    }
}

/// The string under the given key: `None` where there is no such member or
/// its value is no string.
pub open spec fn string_at(members: Seq<(Seq<char>, Option<Seq<char>>)>, key: Seq<char>) -> Option<
    Seq<char>,
> {
    match member_at(members, key) {
        Some(Some(text)) => Some(text),
        _ => None,
    }
}

/// The members whose value is a string, in order, each as a pair of key and
/// string.
pub open spec fn string_pairs(members: Seq<(Seq<char>, Option<Seq<char>>)>) -> Seq<
    (Seq<char>, Seq<char>),
>
    decreases members.len(),
{
    if members.len() == 0 {
        Seq::empty()
    } else {
        let front = string_pairs(members.drop_last());
        match members.last().1 {
            Some(text) => front.push((members.last().0, text)),
            None => front,
        }
    }
}

/// The body encoding that a declared content type stands for: JSON where
/// it mentions `json`, form encoding otherwise.
pub open spec fn body_type_of(declared: Seq<char>) -> CallbackBodyType {
    if has_substring(declared, "json"@) {
        CallbackBodyType::Json
    } else {
        CallbackBodyType::FormUrlEncoded
    }
}

/// The callback that a callback document and a document of variables
/// describe. There is none unless the callback document is an object with
/// the strings `callbackUrl` and `callbackBody`. `callbackBodyType`, where
/// it is a string, chooses the encoding. The variables are the string
/// members of the other document, if that is an object.
pub open spec fn callback_of(
    document: Option<Seq<(Seq<char>, Option<Seq<char>>)>>,
    variables: Option<Seq<(Seq<char>, Option<Seq<char>>)>>,
) -> Option<CallbackView> {
    match document {
        None => None,
        Some(members) => match (
            string_at(members, "callbackUrl"@),
            string_at(members, "callbackBody"@),
        ) {
            (Some(url), Some(body)) => Some(
                CallbackView {
                    url,
                    body,
                    body_type: body_type_of(
                        match string_at(members, "callbackBodyType"@) {
                            Some(declared) => declared,
                            None => Seq::empty(),
                        },
                    ),
                    custom_variables: match variables {
                        Some(vars) => string_pairs(vars),
                        None => Seq::empty(),
                    },
                },
            ),
            _ => None,
        },
    }
}

/// Looks up the string under `key`.
fn find_string(members: &Vec<(String, Option<String>)>, key: &str) -> (found: Option<String>)
    ensures
        text_view(found) == string_at(members_view(members@), key@),
{
    let wanted: String = key.to_owned();
    let ghost all = members_view(members@);
    let mut i: usize = 0;
    proof {
        assert(all.skip(0) =~= all);
    }
    while i < members.len()
        invariant
            i <= members@.len(),
            all == members_view(members@),
            wanted@ == key@,
            member_at(all, key@) == member_at(all.skip(i as int), key@),
        decreases members@.len() - i,
    {
        proof {
            assert(all.skip(i as int).first() == all[i as int]);
            assert(all.skip(i as int).drop_first() =~= all.skip(i + 1));
        }
        if members[i].0 == wanted {
            return match &members[i].1 {
                Some(text) => Some(text.clone()),
                None => None,
            };
        }
        i = i + 1;
    }
    None
}

/// Copies out the members whose value is a string.
fn collect_strings(members: &Vec<(String, Option<String>)>) -> (pairs: Vec<(String, String)>)
    ensures
        pairs_view(pairs@) == string_pairs(members_view(members@)),
{
    let ghost all = members_view(members@);
    let mut pairs: Vec<(String, String)> = Vec::new();
    let mut i: usize = 0;
    proof {
        assert(pairs_view(pairs@) =~= string_pairs(all.take(0)));
    }
    while i < members.len()
        invariant
            i <= members@.len(),
            all == members_view(members@),
            pairs_view(pairs@) == string_pairs(all.take(i as int)),
        decreases members@.len() - i,
    {
        proof {
            assert(all.take(i + 1).drop_last() =~= all.take(i as int));
            assert(all.take(i + 1).last() == all[i as int]);
        }
        let ghost before = pairs_view(pairs@);
        match &members[i].1 {
            Some(text) => {
                pairs.push((members[i].0.clone(), text.clone()));
                proof {
                    assert(pairs_view(pairs@) =~= before.push((all[i as int].0, text@)));
                }
            },
            None => {},
        }
        i = i + 1;
    }
    proof {
        assert(all.take(members@.len() as int) =~= all);
    }
    pairs
}

/// Builds the callback from a parsed callback document and a parsed
/// document of variables; see `callback_of`.
pub fn callback_from_members(
    document: Option<Vec<(String, Option<String>)>>,
    variables: Option<Vec<(String, Option<String>)>>,
) -> (callback: Option<CallbackSpec>)
    ensures
        callback_view(callback) == callback_of(document_view(document), document_view(variables)),
{
    let members = match document {
        Some(members) => members,
        None => {
            return None;
        },
    };
    let url = match find_string(&members, "callbackUrl") {
        Some(url) => url,
        None => {
            return None;
        },
    };
    let body = match find_string(&members, "callbackBody") {
        Some(body) => body,
        None => {
            return None;
        },
    };
    let declared = match find_string(&members, "callbackBodyType") {
        Some(declared) => declared,
        None => String::new(),
    };
    let body_type = if text_contains(declared.as_str(), "json") {
        CallbackBodyType::Json
    } else {
        CallbackBodyType::FormUrlEncoded
    };
    let custom_variables = match variables {
        Some(vars) => collect_strings(&vars),
        None => Vec::new(),
    };
    proof {
        assert(pairs_view(Seq::<(String, String)>::empty()) =~= Seq::empty());
    }
    Some(CallbackSpec { url, body, body_type, custom_variables })
}

/// Parses a callback specification: a JSON document naming the callback
/// address, the body template and the body encoding, and a second JSON
/// document of free-form variables, which is not looked at where it is
/// empty. A specification that cannot be read gives no callback.
pub fn parse_115_callback(callback_str: &str, callback_var_str: &str) -> (callback: Option<
    CallbackSpec,
>)
    ensures
        callback_view(callback) == callback_of(
            json_object_members(callback_str@),
            if callback_var_str@.len() == 0 {
                None
            } else {
                json_object_members(callback_var_str@)
            },
        ),
{
    let document = object_members(callback_str);
    let variables = if callback_var_str.is_empty() {
        None
    } else {
        object_members(callback_var_str)
    };
    callback_from_members(document, variables)
}

/// The callback to attach to an upload: none where the specification is
/// empty, else what `parse_115_callback` reads from it.
pub fn build_callback(callback: &str, callback_var: &str) -> (parsed: Option<CallbackSpec>)
    ensures
        callback@.len() == 0 ==> parsed.is_none(),
        callback@.len() != 0 ==> callback_view(parsed) == callback_of(
            json_object_members(callback@),
            if callback_var@.len() == 0 {
                None
            } else {
                json_object_members(callback_var@)
            },
        ),
{
    if callback.is_empty() {
        return None;
    }
    parse_115_callback(callback, callback_var)
}

} // verus!
