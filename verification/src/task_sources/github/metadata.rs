//! Metadata in GitHub issue bodies.
//!
//! Internal fields (`blocked_by`, `started`, `key` and so on) are kept in the issue body as
//! an HTML comment, which is invisible when the issue is rendered:
//!
//! ```text
//! User-visible description here.
//!
//! <!-- ralph:metadata:v1 {"blocked_by":["41","43"]} -->
//! ```
//!
//! Nothing here fails: on malformed input the fields take their defaults.

use crate::comment;
use crate::json;
use crate::pattern;
use crate::record;
use crate::text;
use crate::json::{
    json_read_optional_string, json_read_optional_u8, json_read_strings, json_write_string,
    json_write_strings, json_write_u8, read_elements, read_members,
};
use crate::pattern::{
    regex_captures, regex_find_iter, regex_is_match, regex_replace_all, METADATA_PATTERN,
};
use crate::record::{with_member, Member};
use crate::text::{same_text, trim_end};
use vstd::prelude::*;
use vstd::string::*;

verus! {

/// Metadata that GitHub's own data model has no place for.
#[derive(Debug, Clone, PartialEq)]
pub struct IssueMetadata {
    /// Identifiers (issue numbers) of the tasks that have to be finished first.
    pub blocked_by: Vec<String>,
    /// RFC 3339 time at which the task was started.
    pub started: Option<String>,
    /// RFC 3339 time at which the task was closed.
    pub closed: Option<String>,
    /// Stable key for idempotent task identification.
    pub key: Option<String>,
    /// The loop that created or owns the task.
    pub loop_id: Option<String>,
    /// Priority, 1 to 5.
    pub priority: Option<u8>,
}

/// The contents of an [`IssueMetadata`].
#[verifier::ext_equal]
pub struct IssueMetadataView {
    pub blocked_by: Seq<Seq<char>>,
    pub started: Option<Seq<char>>,
    pub closed: Option<Seq<char>>,
    pub key: Option<Seq<char>>,
    pub loop_id: Option<Seq<char>>,
    pub priority: Option<u8>,
}

impl View for IssueMetadata {
    type V = IssueMetadataView;

    open spec fn view(&self) -> IssueMetadataView {
        IssueMetadataView {
            blocked_by: pattern::texts(self.blocked_by@),
            started: json::opt_text(self.started),
            closed: json::opt_text(self.closed),
            key: json::opt_text(self.key),
            loop_id: json::opt_text(self.loop_id),
            priority: self.priority,
        }
    }
}

/// The metadata of an issue that carries none.
pub open spec fn no_metadata() -> IssueMetadataView {
    IssueMetadataView {
        blocked_by: seq![],
        started: None,
        closed: None,
        key: None,
        loop_id: None,
        priority: None,
    }
}

impl Default for IssueMetadata {
    fn default() -> (r: Self)
        ensures
            r@ == no_metadata(),
    {
        let r = IssueMetadata {
            blocked_by: Vec::new(),
            started: None,
            closed: None,
            key: None,
            loop_id: None,
            priority: None,
        };
        assert(r@ =~= no_metadata());
        r
    }
}

impl IssueMetadata {
    /// Returns `true` when every field is at its default value.
    pub fn is_empty(&self) -> (r: bool)
        ensures
            r == (self@ == no_metadata()),
    {
        let r = self.blocked_by.len() == 0 && self.started.is_none() && self.closed.is_none()
            && self.key.is_none() && self.loop_id.is_none() && self.priority.is_none();
        proof {
            assert(self@.blocked_by.len() == self.blocked_by@.len());
            if r {
                assert(self@ =~= no_metadata());
            }
        }
        r
    }
}

/// The values of the members named `name`, in order.
pub open spec fn values_of(
    members: Seq<(Seq<char>, Seq<char>)>,
    name: Seq<char>,
) -> Seq<Seq<char>>
    decreases members.len(),
{
    if members.len() == 0 {
        seq![]
    } else {
        let before = values_of(members.drop_last(), name);
        if members.last().0 == name {
            before.push(members.last().1)
        } else {
            before
        }
    }
}

/// A field that is a list of strings: empty if it is absent, and an error if it occurs twice
/// or is anything else.
pub open spec fn list_field(values: Seq<Seq<char>>) -> Option<Seq<Seq<char>>> {
    if values.len() == 0 {
        Some(seq![])
    } else if values.len() == 1 {
        json::json_strings(values[0])
    } else {
        None
    }
}

/// A field that is a string or null: null if it is absent, and an error if it occurs twice or
/// is anything else.
pub open spec fn string_field(values: Seq<Seq<char>>) -> Option<Option<Seq<char>>> {
    if values.len() == 0 {
        Some(None)
    } else if values.len() == 1 {
        json::json_optional_string(values[0])
    } else {
        None
    }
}

/// A field that is a byte or null: null if it is absent, and an error if it occurs twice or is
/// anything else.
pub open spec fn byte_field(values: Seq<Seq<char>>) -> Option<Option<u8>> {
    if values.len() == 0 {
        Some(None)
    } else if values.len() == 1 {
        json::json_optional_u8(values[0])
    } else {
        None
    }
}

/// The metadata with these fields, if none of them is in error.
pub open spec fn metadata_of_fields(
    blocked_by: Seq<Seq<char>>,
    started: Seq<Seq<char>>,
    closed: Seq<Seq<char>>,
    key: Seq<Seq<char>>,
    loop_id: Seq<Seq<char>>,
    priority: Seq<Seq<char>>,
) -> Option<IssueMetadataView> {
    match (
        list_field(blocked_by),
        string_field(started),
        string_field(closed),
        string_field(key),
        string_field(loop_id),
        byte_field(priority),
    ) {
        (
            Some(blocked_by),
            Some(started),
            Some(closed),
            Some(key),
            Some(loop_id),
            Some(priority),
        ) => Some(IssueMetadataView { blocked_by, started, closed, key, loop_id, priority }),
        _ => None,
    }
}

/// The metadata that the members of an object hold. Members with other names do not count.
pub open spec fn metadata_of_members(
    members: Seq<(Seq<char>, Seq<char>)>,
) -> Option<IssueMetadataView> {
    metadata_of_fields(
        values_of(members, "blocked_by"@),
        values_of(members, "started"@),
        values_of(members, "closed"@),
        values_of(members, "key"@),
        values_of(members, "loop_id"@),
        values_of(members, "priority"@),
    )
}

/// The element at position `i` of an array, as the values of a field.
pub open spec fn element_at(elements: Seq<Seq<char>>, i: int) -> Seq<Seq<char>> {
    if i < elements.len() {
        seq![elements[i]]
    } else {
        seq![]
    }
}

/// The metadata that the elements of an array hold: the fields in order, the last of them
/// left out where the array is shorter.
pub open spec fn metadata_of_elements(elements: Seq<Seq<char>>) -> Option<IssueMetadataView> {
    if elements.len() > 6 {
        None
    } else {
        metadata_of_fields(
            element_at(elements, 0),
            element_at(elements, 1),
            element_at(elements, 2),
            element_at(elements, 3),
            element_at(elements, 4),
            element_at(elements, 5),
        )
    }
}

/// The metadata that a payload holds: an object, or an array of the fields in order.
pub open spec fn decoded(payload: Seq<char>) -> Option<IssueMetadataView> {
    if json::after_token(payload, '[') is Some {
        match json::array_elements(payload) {
            Some(elements) => metadata_of_elements(elements),
            None => None,
        }
    } else {
        match json::object_members(payload) {
            Some(members) => metadata_of_members(members),
            None => None,
        }
    }
}

/// The payload of the last metadata comment of a body.
pub open spec fn last_payload(body: Seq<char>) -> Option<Seq<char>> {
    if pattern::comments(body).len() == 0 {
        None
    } else {
        match pattern::first_comment(pattern::comments(body).last()) {
            Some(groups) => Some(groups[1]),
            None => None,
        }
    }
}

/// The metadata of an issue body: that of its last comment, and none where there is no
/// comment or its payload is malformed.
pub open spec fn parsed(body: Seq<char>) -> IssueMetadataView {
    match last_payload(body) {
        Some(payload) => match decoded(payload) {
            Some(m) => m,
            None => no_metadata(),
        },
        None => no_metadata(),
    }
}

/// The values of the members named `name`.
fn values_named(members: &Vec<(String, String)>, name: &str) -> (r: Vec<String>)
    ensures
        pattern::texts(r@) == values_of(json::member_texts(members@), name@),
{
    let mut out: Vec<String> = Vec::new();
    let ghost all = json::member_texts(members@);
    let mut i: usize = 0;
    assert(pattern::texts(out@) =~= values_of(all.take(0), name@));
    while i < members.len()
        invariant
            i <= members@.len(),
            all == json::member_texts(members@),
            pattern::texts(out@) == values_of(all.take(i as int), name@),
        decreases members@.len() - i,
    {
        let ghost before = pattern::texts(out@);
        assert(all.take(i + 1).drop_last() =~= all.take(i as int));
        assert(all.take(i + 1).last() == (members@[i as int].0@, members@[i as int].1@));
        if same_text(members[i].0.as_str(), name) {
            out.push(members[i].1.clone());
            assert(pattern::texts(out@) =~= before.push(members@[i as int].1@));
        }
        i = i + 1;
    }
    assert(all.take(all.len() as int) =~= all);
    out
}

/// Reads a field that is a list of strings.
fn read_list_field(values: &Vec<String>) -> (r: Option<Vec<String>>)
    ensures
        (match r {
            Some(v) => Some(pattern::texts(v@)),
            None => None,
        }) == list_field(pattern::texts(values@)),
{
    if values.len() == 0 {
        let v: Vec<String> = Vec::new();
        assert(pattern::texts(v@) =~= seq![]);
        Some(v)
    } else if values.len() == 1 {
        json_read_strings(values[0].as_str())
    } else {
        None
    }
}

/// Reads a field that is a string or null.
fn read_string_field(values: &Vec<String>) -> (r: Option<Option<String>>)
    ensures
        (match r {
            Some(s) => Some(json::opt_text(s)),
            None => None,
        }) == string_field(pattern::texts(values@)),
{
    if values.len() == 0 {
        Some(None)
    } else if values.len() == 1 {
        json_read_optional_string(values[0].as_str())
    } else {
        None
    }
}

/// Reads a field that is a byte or null.
fn read_byte_field(values: &Vec<String>) -> (r: Option<Option<u8>>)
    ensures
        r == byte_field(pattern::texts(values@)),
{
    if values.len() == 0 {
        Some(None)
    } else if values.len() == 1 {
        json_read_optional_u8(values[0].as_str())
    } else {
        None
    }
}

/// The contents of optional metadata.
pub open spec fn opt_metadata(r: Option<IssueMetadata>) -> Option<IssueMetadataView> {
    match r {
        Some(m) => Some(m@),
        None => None,
    }
}

/// Reads the six fields.
fn read_fields(
    blocked_by: &Vec<String>,
    started: &Vec<String>,
    closed: &Vec<String>,
    key: &Vec<String>,
    loop_id: &Vec<String>,
    priority: &Vec<String>,
) -> (r: Option<IssueMetadata>)
    ensures
        opt_metadata(r) == metadata_of_fields(
            pattern::texts(blocked_by@),
            pattern::texts(started@),
            pattern::texts(closed@),
            pattern::texts(key@),
            pattern::texts(loop_id@),
            pattern::texts(priority@),
        ),
{
    match (
        read_list_field(blocked_by),
        read_string_field(started),
        read_string_field(closed),
        read_string_field(key),
        read_string_field(loop_id),
        read_byte_field(priority),
    ) {
        (
            Some(blocked_by),
            Some(started),
            Some(closed),
            Some(key),
            Some(loop_id),
            Some(priority),
        ) => Some(IssueMetadata { blocked_by, started, closed, key, loop_id, priority }),
        _ => None,
    }
}

/// The element at position `i`, as the values of a field.
fn element_values(elements: &Vec<String>, i: usize) -> (r: Vec<String>)
    ensures
        pattern::texts(r@) == element_at(pattern::texts(elements@), i as int),
{
    let mut v: Vec<String> = Vec::new();
    if i < elements.len() {
        v.push(elements[i].clone());
    }
    assert(pattern::texts(v@) =~= element_at(pattern::texts(elements@), i as int));
    v
}

/// Reads the metadata that a payload holds; `None` if it is malformed.
pub fn decode_metadata(payload: &str) -> (r: Option<IssueMetadata>)
    ensures
        opt_metadata(r) == decoded(payload@),
{
    match read_elements(payload) {
        Some(elements) => {
            if elements.len() > 6 {
                return None;
            }
            read_fields(
                &element_values(&elements, 0),
                &element_values(&elements, 1),
                &element_values(&elements, 2),
                &element_values(&elements, 3),
                &element_values(&elements, 4),
                &element_values(&elements, 5),
            )
        },
        None => {
            match read_members(payload) {
                Some(members) => {
                    proof {
                        lemma_one_token(payload@);
                    }
                    read_fields(
                        &values_named(&members, "blocked_by"),
                        &values_named(&members, "started"),
                        &values_named(&members, "closed"),
                        &values_named(&members, "key"),
                        &values_named(&members, "loop_id"),
                        &values_named(&members, "priority"),
                    )
                },
                None => None,
            }
        },
    }
}

/// A text begins with one token at most.
proof fn lemma_one_token(s: Seq<char>)
    ensures
        json::object_members(s) is Some ==> json::after_token(s, '[') is None,
{
}

/// A comment was found in `c`, with its payload.
spec fn has_payload(c: Seq<char>) -> bool {
    pattern::first_comment(c) is Some && pattern::first_comment(c)->0.len() == 2
}

/// Every comment that is found in a text has a payload.
proof fn lemma_comments_have_payloads(s: Seq<char>)
    ensures
        forall|i: int|
            0 <= i < pattern::comments(s).len() ==> has_payload(#[trigger] pattern::comments(s)[i]),
    decreases s.len(),
{
    if s.len() > 0 {
        crate::pattern::lemma_comment_at_head(s);
        match crate::pattern::comment_at_head(s) {
            Some((p, e)) => {
                let n = crate::pattern::comment_len(e);
                let c = s.take(n);
                assert(c.take(n) =~= c);
                crate::pattern::lemma_comment_local(s, c, p, e);
                crate::pattern::lemma_comment_unique(c, p, e);
                lemma_comments_have_payloads(s.skip(n));
                assert(pattern::comments(s) == seq![c] + pattern::comments(s.skip(n)));
                assert forall|i: int| 0 <= i < pattern::comments(s).len() implies has_payload(
                    #[trigger] pattern::comments(s)[i],
                ) by {
                    if i > 0 {
                        assert(pattern::comments(s)[i] == pattern::comments(s.skip(n))[i - 1]);
                    }
                }
            },
            None => {
                lemma_comments_have_payloads(s.drop_first());
                assert(pattern::comments(s) == pattern::comments(s.drop_first()));
            },
        }
    } else {
        assert(pattern::comments(s).len() == 0);
    }
}

/// Extract [`IssueMetadata`] from an issue body.
///
/// If the body contains multiple metadata comments the **last** one wins. A malformed
/// payload gives the default (empty) metadata.
pub fn parse_metadata(body: &str) -> (r: IssueMetadata)
    ensures
        r@ == parsed(body@),
{
    let found = regex_find_iter(METADATA_PATTERN, body);
    if found.len() == 0 {
        return IssueMetadata::default();
    }
    let last = &found[found.len() - 1];
    proof {
        lemma_comments_have_payloads(body@);
        assert(pattern::texts(found@)[found@.len() - 1] == last@);
    }
    if let Some(groups) = regex_captures(METADATA_PATTERN, last.as_str()) {
        if let Some(payload) = &groups[1] {
            if let Some(metadata) = decode_metadata(payload.as_str()) {
                return metadata;
            }
        }
    }
    IssueMetadata::default()
}

/// A list as a member of a record, left out if it is empty.
pub open spec fn list_member(name: Seq<char>, v: Seq<Seq<char>>) -> Seq<Member> {
    if v.len() == 0 {
        seq![]
    } else {
        seq![(name, json::json_list_text(v))]
    }
}

/// A string as a member of a record, left out if there is none.
pub open spec fn string_member(name: Seq<char>, v: Option<Seq<char>>) -> Seq<Member> {
    match v {
        Some(s) => seq![(name, json::json_string_text(s))],
        None => seq![],
    }
}

/// A byte as a member of a record, left out if there is none.
pub open spec fn byte_member(name: Seq<char>, v: Option<u8>) -> Seq<Member> {
    match v {
        Some(n) => seq![(name, text::decimal_text(n as nat))],
        None => seq![],
    }
}

/// The members that metadata is written as. Fields at their default are left out.
pub open spec fn encoded_members(m: IssueMetadataView) -> Seq<Member> {
    list_member("blocked_by"@, m.blocked_by) + string_member("started"@, m.started)
        + string_member("closed"@, m.closed) + string_member("key"@, m.key) + string_member(
        "loop_id"@,
        m.loop_id,
    ) + byte_member("priority"@, m.priority)
}

/// Metadata as JSON text.
pub open spec fn encoded(m: IssueMetadataView) -> Seq<char> {
    record::record_text(encoded_members(m))
}

/// The values that a field is written as are read back as the field.
spec fn fields_read_back(m: IssueMetadataView) -> bool {
    &&& forall|i: int| 0 <= i < encoded_members(m).len() ==> record::reads_back(#[trigger] encoded_members(m)[i])
    &&& m.blocked_by.len() > 0 ==> json::json_strings(json::json_list_text(m.blocked_by)) == Some(m.blocked_by)
    &&& string_reads_back(m.started)
    &&& string_reads_back(m.closed)
    &&& string_reads_back(m.key)
    &&& string_reads_back(m.loop_id)
    &&& m.priority matches Some(n) ==> json::json_optional_u8(text::decimal_text(n as nat)) == Some(Some(n))
}

spec fn string_reads_back(v: Option<Seq<char>>) -> bool {
    v matches Some(s) ==> json::json_optional_string(json::json_string_text(s)) == Some(Some(s))
}

proof fn lemma_values_of_join(a: Seq<Member>, b: Seq<Member>, name: Seq<char>)
    ensures
        values_of(a + b, name) == values_of(a, name) + values_of(b, name),
    decreases b.len(),
{
    if b.len() == 0 {
        assert(a + b =~= a);
        assert(values_of(a, name) + values_of(b, name) =~= values_of(a, name));
    } else {
        assert((a + b).drop_last() =~= a + b.drop_last());
        lemma_values_of_join(a, b.drop_last(), name);
        assert(values_of(a + b, name) =~= values_of(a, name) + values_of(b, name));
    }
}

proof fn lemma_values_of_one(m: Member, name: Seq<char>)
    ensures
        values_of(seq![m], name) == (if m.0 == name {
            seq![m.1]
        } else {
            Seq::<Seq<char>>::empty()
        }),
        values_of(Seq::<Member>::empty(), name) == Seq::<Seq<char>>::empty(),
{
    let none = Seq::<Member>::empty();
    assert(seq![m].drop_last() =~= none);
    assert(values_of(none, name) =~= Seq::<Seq<char>>::empty());
    assert(values_of(seq![m], name) =~= (if m.0 == name {
        seq![m.1]
    } else {
        Seq::<Seq<char>>::empty()
    }));
}

/// The values of the fields of written metadata.
proof fn lemma_encoded_values(m: IssueMetadataView, name: Seq<char>)
    ensures
        values_of(encoded_members(m), name) == values_of(
            list_member("blocked_by"@, m.blocked_by),
            name,
        ) + values_of(string_member("started"@, m.started), name) + values_of(
            string_member("closed"@, m.closed),
            name,
        ) + values_of(string_member("key"@, m.key), name) + values_of(
            string_member("loop_id"@, m.loop_id),
            name,
        ) + values_of(byte_member("priority"@, m.priority), name),
{
    let a = list_member("blocked_by"@, m.blocked_by);
    let b = string_member("started"@, m.started);
    let c = string_member("closed"@, m.closed);
    let d = string_member("key"@, m.key);
    let e = string_member("loop_id"@, m.loop_id);
    let f = byte_member("priority"@, m.priority);
    lemma_values_of_join(a, b, name);
    lemma_values_of_join(a + b, c, name);
    lemma_values_of_join(a + b + c, d, name);
    lemma_values_of_join(a + b + c + d, e, name);
    lemma_values_of_join(a + b + c + d + e, f, name);
}

/// No two fields have the same name, and no name holds a space.
proof fn lemma_field_names()
    ensures
        "blocked_by"@.len() == 10,
        "started"@.len() == 7,
        "closed"@.len() == 6,
        "key"@.len() == 3,
        "loop_id"@.len() == 7,
        "priority"@.len() == 8,
        "started"@ != "loop_id"@,
        plain_name("blocked_by"@),
        plain_name("started"@),
        plain_name("closed"@),
        plain_name("key"@),
        plain_name("loop_id"@),
        plain_name("priority"@),
{
    reveal_strlit("blocked_by");
    reveal_strlit("started");
    reveal_strlit("closed");
    reveal_strlit("key");
    reveal_strlit("loop_id");
    reveal_strlit("priority");
    assert("started"@[0] != "loop_id"@[0]);
}

spec fn plain_name(name: Seq<char>) -> bool {
    !name.contains(' ')
}

proof fn lemma_member_values(m: IssueMetadataView, name: Seq<char>)
    ensures
        values_of(list_member("blocked_by"@, m.blocked_by), name) == (if name == "blocked_by"@
            && m.blocked_by.len() > 0 {
            seq![json::json_list_text(m.blocked_by)]
        } else {
            seq![]
        }),
        values_of(byte_member("priority"@, m.priority), name) == (if name == "priority"@
            && m.priority is Some {
            seq![text::decimal_text(m.priority->0 as nat)]
        } else {
            seq![]
        }),
{
    lemma_values_of_one(("blocked_by"@, json::json_list_text(m.blocked_by)), name);
    lemma_values_of_one(("priority"@, text::decimal_text(m.priority->0 as nat)), name);
}

proof fn lemma_string_member_values(field: Seq<char>, v: Option<Seq<char>>, name: Seq<char>)
    ensures
        values_of(string_member(field, v), name) == (if name == field && v is Some {
            seq![json::json_string_text(v->0)]
        } else {
            seq![]
        }),
{
    lemma_values_of_one((field, json::json_string_text(v->0)), name);
}

/// Reading written metadata gives it back.
proof fn lemma_decoded(m: IssueMetadataView)
    requires
        fields_read_back(m),
    ensures
        decoded(encoded(m)) == Some(m),
{
    let ms = encoded_members(m);
    record::lemma_record_read_back(ms);
    lemma_field_names();
    lemma_field_value(m, "blocked_by"@);
    lemma_field_value(m, "started"@);
    lemma_field_value(m, "closed"@);
    lemma_field_value(m, "key"@);
    lemma_field_value(m, "loop_id"@);
    lemma_field_value(m, "priority"@);
    assert(list_field(values_of(ms, "blocked_by"@)) == Some(m.blocked_by)) by {
        assert(m.blocked_by.len() == 0 ==> m.blocked_by =~= seq![]);
    }
}

/// The values of one field of written metadata.
proof fn lemma_field_value(m: IssueMetadataView, name: Seq<char>)
    ensures
        ({
            let vs = values_of(encoded_members(m), name);
            &&& name == "blocked_by"@ ==> vs == (if m.blocked_by.len() > 0 {
                seq![json::json_list_text(m.blocked_by)]
            } else {
                seq![]
            })
            &&& name == "started"@ ==> vs == string_values(m.started)
            &&& name == "closed"@ ==> vs == string_values(m.closed)
            &&& name == "key"@ ==> vs == string_values(m.key)
            &&& name == "loop_id"@ ==> vs == string_values(m.loop_id)
            &&& name == "priority"@ ==> vs == (match m.priority {
                Some(n) => seq![text::decimal_text(n as nat)],
                None => seq![],
            })
        }),
{
    lemma_field_names();
    lemma_encoded_values(m, name);
    lemma_member_values(m, name);
    lemma_string_member_values("started"@, m.started, name);
    lemma_string_member_values("closed"@, m.closed, name);
    lemma_string_member_values("key"@, m.key, name);
    lemma_string_member_values("loop_id"@, m.loop_id, name);
    let vs = values_of(encoded_members(m), name);
    if name == "blocked_by"@ {
        assert(vs =~= values_of(list_member("blocked_by"@, m.blocked_by), name));
    } else if name == "started"@ {
        assert(vs =~= string_values(m.started));
    } else if name == "closed"@ {
        assert(vs =~= string_values(m.closed));
    } else if name == "key"@ {
        assert(vs =~= string_values(m.key));
    } else if name == "loop_id"@ {
        assert(vs =~= string_values(m.loop_id));
    } else if name == "priority"@ {
        assert(vs =~= values_of(byte_member("priority"@, m.priority), name));
    }
}

spec fn string_values(v: Option<Seq<char>>) -> Seq<Seq<char>> {
    match v {
        Some(s) => seq![json::json_string_text(s)],
        None => seq![],
    }
}

/// Writes a string field, if there is one.
fn with_string(
    body: String,
    name: &str,
    value: &Option<String>,
    ms: Ghost<Seq<Member>>,
) -> (r: String)
    requires
        body@ == record::record_body(ms@),
        body@.len() == 0 <==> ms@.len() == 0,
    ensures
        r@ == record::record_body(ms@ + string_member(name@, json::opt_text(*value))),
        r@.len() == 0 <==> (ms@ + string_member(name@, json::opt_text(*value))).len() == 0,
        value matches Some(v) ==> record::reads_back((name@, json::json_string_text(v@))),
        string_reads_back(json::opt_text(*value)),
{
    match value {
        Some(v) => {
            let text = json_write_string(v.as_str());
            assert(ms@ + string_member(name@, json::opt_text(*value)) =~= ms@.push((name@, text@)));
            with_member(body, name, text.as_str(), ms)
        },
        None => {
            assert(ms@ + string_member(name@, json::opt_text(*value)) =~= ms@);
            body
        },
    }
}

/// Writes metadata as JSON text. Reading the text back gives the metadata.
#[verifier::spinoff_prover]
pub fn encode_metadata(metadata: &IssueMetadata) -> (r: String)
    ensures
        r@ == encoded(metadata@),
        decoded(r@) == Some(metadata@),
{
    let ghost m = metadata@;
    let ghost a = list_member("blocked_by"@, m.blocked_by);
    let mut body = String::new();
    if metadata.blocked_by.len() > 0 {
        let text = json_write_strings(&metadata.blocked_by);
        assert(Seq::<Member>::empty().push(("blocked_by"@, text@)) =~= a);
        body = with_member(body, "blocked_by", text.as_str(), Ghost(Seq::empty()));
    } else {
        assert(a =~= seq![]);
    }
    let ghost b = a + string_member("started"@, m.started);
    let body = with_string(body, "started", &metadata.started, Ghost(a));
    let ghost c = b + string_member("closed"@, m.closed);
    let body = with_string(body, "closed", &metadata.closed, Ghost(b));
    let ghost d = c + string_member("key"@, m.key);
    let body = with_string(body, "key", &metadata.key, Ghost(c));
    let ghost e = d + string_member("loop_id"@, m.loop_id);
    let mut body = with_string(body, "loop_id", &metadata.loop_id, Ghost(d));
    let ghost f = e + byte_member("priority"@, m.priority);
    if let Some(n) = metadata.priority {
        let text = json_write_u8(n);
        assert(e.push(("priority"@, text@)) =~= f);
        body = with_member(body, "priority", text.as_str(), Ghost(e));
    } else {
        assert(e =~= f);
    }
    let mut out = String::new();
    out.push('{');
    out.append(body.as_str());
    out.push('}');
    proof {
        assert(f == encoded_members(m));
        assert forall|i: int| 0 <= i < encoded_members(m).len() implies record::reads_back(
            #[trigger] encoded_members(m)[i],
        ) by {
            lemma_member_kinds(m, i);
        }
        assert(out@ =~= encoded(m));
        lemma_decoded(m);
    }
    out
}

/// The user-visible text of an issue body.
pub open spec fn stripped(body: Seq<char>) -> Seq<char> {
    text::trimmed_end(pattern::comments_replaced(body, seq![]))
}

/// The comment that metadata is written as.
pub open spec fn metadata_comment(m: IssueMetadataView) -> Seq<char> {
    comment::comment_text(encoded(m))
}

/// An issue body with its metadata written.
pub open spec fn written(body: Seq<char>, m: IssueMetadataView) -> Seq<char> {
    if m == no_metadata() {
        if pattern::comments(body).len() > 0 {
            stripped(body)
        } else {
            body
        }
    } else if pattern::comments(body).len() > 0 {
        pattern::comments_replaced(body, metadata_comment(m))
    } else if body.len() == 0 {
        metadata_comment(m)
    } else {
        body + "\n\n"@ + metadata_comment(m)
    }
}

/// `s` does not hold the text that ends a comment.
pub open spec fn no_comment_end(s: Seq<char>) -> bool {
    !text::holds_text(s, pattern::comment_close())
}

pub open spec fn opt_no_comment_end(s: Option<Seq<char>>) -> bool {
    s matches Some(s) ==> no_comment_end(s)
}

/// Metadata that can stand in a comment: none of its strings holds ` -->`.
pub open spec fn fits_in_comment(m: IssueMetadataView) -> bool {
    &&& forall|i: int| 0 <= i < m.blocked_by.len() ==> no_comment_end(#[trigger] m.blocked_by[i])
    &&& opt_no_comment_end(m.started)
    &&& opt_no_comment_end(m.closed)
    &&& opt_no_comment_end(m.key)
    &&& opt_no_comment_end(m.loop_id)
}

/// Metadata whose strings fit in a comment makes a payload that does.
pub(crate) proof fn lemma_encoded_fits(m: IssueMetadataView)
    requires
        fits_in_comment(m),
    ensures
        comment::payload_fits(encoded(m)),
{
    let ms = encoded_members(m);
    assert forall|i: int| 0 <= i < ms.len() implies record::comment_safe((#[trigger] ms[i]).1)
        && !ms[i].0.contains(' ') by {
        lemma_member_kinds(m, i);
        lemma_field_names();
        if m.blocked_by.len() > 0 {
            record::lemma_list_safe(m.blocked_by);
        }
        lemma_opt_string_safe(m.started);
        lemma_opt_string_safe(m.closed);
        lemma_opt_string_safe(m.key);
        lemma_opt_string_safe(m.loop_id);
        if let Some(n) = m.priority {
            record::lemma_decimal_safe(n as nat);
        }
    }
    record::lemma_record_safe(ms);
    let body = record::record_body(ms);
    let open = seq!['{'];
    let end = seq!['}'];
    record::lemma_no_close_spaceless(open);
    record::lemma_no_close_spaceless(end);
    record::lemma_safe_join(open, body);
    record::lemma_safe_join(open + body, end);
    let t = encoded(m);
    assert forall|i: int| 0 <= i < t.len() implies !pattern::comment_close().is_prefix_of(
        #[trigger] (t + pattern::comment_close()).skip(i),
    ) by {
        lemma_close_not_across(t, i);
    }
}

/// The end of a comment that follows a text that ends in a brace does not begin in the text.
proof fn lemma_close_not_across(t: Seq<char>, i: int)
    requires
        record::no_close(t),
        t.len() > 0,
        t.last() == '}',
        0 <= i < t.len(),
    ensures
        !pattern::comment_close().is_prefix_of((t + pattern::comment_close()).skip(i)),
{
    let s = t + pattern::comment_close();
    record::lemma_close_at(s, i);
    record::lemma_close_at(t, i);
    assert(!pattern::comment_close().is_prefix_of(t.skip(i)));
    assert(s[t.len() - 1] == '}');
}

proof fn lemma_opt_string_safe(v: Option<Seq<char>>)
    requires
        opt_no_comment_end(v),
    ensures
        v matches Some(s) ==> record::comment_safe(json::json_string_text(s)),
{
    if let Some(s) = v {
        record::lemma_string_safe(s);
    }
}

/// Every member of written metadata is one of its fields.
proof fn lemma_member_kinds(m: IssueMetadataView, i: int)
    requires
        0 <= i < encoded_members(m).len(),
    ensures
        ({
            let e = encoded_members(m)[i];
            ||| m.blocked_by.len() > 0 && e == ("blocked_by"@, json::json_list_text(m.blocked_by))
            ||| m.started is Some && e == ("started"@, json::json_string_text(m.started->0))
            ||| m.closed is Some && e == ("closed"@, json::json_string_text(m.closed->0))
            ||| m.key is Some && e == ("key"@, json::json_string_text(m.key->0))
            ||| m.loop_id is Some && e == ("loop_id"@, json::json_string_text(m.loop_id->0))
            ||| m.priority is Some && e == ("priority"@, text::decimal_text(m.priority->0 as nat))
        }),
{
}

/// The last comment of a rewritten body is the one that was written.
proof fn lemma_written_payload(body: Seq<char>, m: IssueMetadataView)
    requires
        fits_in_comment(m),
        m != no_metadata(),
    ensures
        last_payload(written(body, m)) == Some(encoded(m)),
{
    let c = metadata_comment(m);
    lemma_encoded_fits(m);
    comment::lemma_alone(encoded(m), seq![]);
    if pattern::comments(body).len() > 0 {
        comment::lemma_replaced_comments(body, encoded(m));
    } else if body.len() > 0 {
        comment::lemma_appended_comment(body, encoded(m), seq![]);
    }
    let cs = pattern::comments(written(body, m));
    assert(cs.len() > 0 && cs.last() == c);
}

/// Writing metadata and reading it back.
///
/// What was written is what is read, unless a string of it ends the comment early (holds
/// ` -->`), or, where no metadata is written, taking out the comments leaves a comment.
pub open spec fn survives_writing(body: Seq<char>, m: IssueMetadataView) -> bool {
    if m == no_metadata() {
        pattern::comments(body).len() > 0 ==> pattern::comments(stripped(body)).len() == 0
    } else {
        fits_in_comment(m)
    }
}

/// Write (or replace) the metadata comment in an issue body.
///
/// - If a metadata comment already exists it is replaced in place, by the metadata as it is.
/// - If the metadata is all-default, any existing comment is removed and no new one is
///   appended (keeps the body clean).
/// - Otherwise the comment is appended after a blank line.
pub fn write_metadata(body: &str, metadata: &IssueMetadata) -> (r: String)
    ensures
        r@ == written(body@, metadata@),
        survives_writing(body@, metadata@) ==> parsed(r@) == metadata@,
{
    let has_existing = regex_is_match(METADATA_PATTERN, body);
    if metadata.is_empty() {
        if has_existing {
            return strip_metadata(body);
        }
        return body.to_string();
    }
    let json = encode_metadata(metadata);
    let mut comment = "<!-- ralph:metadata:v1 ".to_string();
    comment.append(json.as_str());
    comment.append(" -->");
    assert(comment@ == metadata_comment(metadata@));
    proof {
        if survives_writing(body@, metadata@) {
            lemma_written_payload(body@, metadata@);
        }
    }
    if has_existing {
        regex_replace_all(METADATA_PATTERN, body, comment.as_str())
    } else if body.is_empty() {
        comment
    } else {
        let mut out = body.to_string();
        out.append("\n\n");
        out.append(comment.as_str());
        out
    }
}

/// Strip the metadata comment from an issue body, returning only user-visible text. Trailing
/// whitespace left by removal is trimmed.
pub fn strip_metadata(body: &str) -> (r: String)
    ensures
        r@ == stripped(body@),
{
    let bare = regex_replace_all(METADATA_PATTERN, body, "");
    proof {
        reveal_strlit("");
        assert(""@ =~= seq![]);
    }
    trim_end(bare.as_str())
}

/// The user-visible text of an issue is what it was before the metadata was written.
pub proof fn strip_undoes_write(body: Seq<char>, m: IssueMetadataView)
    requires
        m != no_metadata(),
        fits_in_comment(m),
    ensures
        stripped(written(body, m)) == stripped(body),
{
    lemma_encoded_fits(m);
    comment::lemma_alone(encoded(m), seq![]);
    if pattern::comments(body).len() > 0 {
        comment::lemma_replaced_again(body, encoded(m), seq![]);
    } else {
        comment::lemma_replaced_none(body, seq![]);
        if body.len() > 0 {
            comment::lemma_appended_comment(body, encoded(m), seq![]);
            reveal_strlit("\n\n");
            assert(body + "\n\n"@ + Seq::<char>::empty() =~= body + "\n\n"@);
            text::lemma_trimmed_end_more(body, "\n\n"@);
        } else {
            assert(body =~= seq![]);
        }
    }
}

/// Writing the same metadata again changes nothing.
pub proof fn write_is_idempotent(body: Seq<char>, m: IssueMetadataView)
    requires
        m != no_metadata(),
        fits_in_comment(m),
    ensures
        written(written(body, m), m) == written(body, m),
{
    lemma_encoded_fits(m);
    let c = metadata_comment(m);
    comment::lemma_alone(encoded(m), c);
    if pattern::comments(body).len() > 0 {
        comment::lemma_replaced_comments(body, encoded(m));
        comment::lemma_replaced_again(body, encoded(m), c);
    } else if body.len() > 0 {
        comment::lemma_appended_comment(body, encoded(m), c);
    }
}

/// The last write wins: writing other metadata over what was written gives what writing it
/// first would have given.
pub proof fn last_write_wins(body: Seq<char>, first: IssueMetadataView, second: IssueMetadataView)
    requires
        first != no_metadata(),
        second != no_metadata(),
        fits_in_comment(first),
    ensures
        written(written(body, first), second) == written(body, second),
{
    lemma_encoded_fits(first);
    let c = metadata_comment(second);
    comment::lemma_alone(encoded(first), c);
    if pattern::comments(body).len() > 0 {
        comment::lemma_replaced_comments(body, encoded(first));
        comment::lemma_replaced_again(body, encoded(first), c);
    } else if body.len() > 0 {
        comment::lemma_appended_comment(body, encoded(first), c);
    }
}

} // verus!
