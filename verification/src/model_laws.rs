//! Laws of containers and their details: what of an engine's answer is shown where.

use crate::ansi::stripped;
use crate::json::{
    at_path, elements, member, objects_among, text_value, texts_among,
    JsonNumber, JsonValue, Members,
};
use crate::model::{
    binding_text, bindings_text, check_row, env_row, first_filled, first_index, has_label,
    label_of, last_three, mount_row, mounts_tab, passing_is_complete, permutation_reaches, port_of,
    port_rows, ports_stand_in_order, record_order_is_weak, sorted_from, stably_sorted,
    stands_before, tab_rows, tells_of, without_feeds, ContainerDetails, ContainerRecord, LogEntry,
    PortModel, RecordModel, SummaryError,
};
use crate::pattern::{date_digit, first_blank, stamp_shape};
use crate::state::AppModel;
use crate::tab::DetailTab;
use crate::text::{
    all_white, decimal, is_digit, joined, text_less, text_order_is_total, trimmed, trimmed_start,
    white_space,
};
use crate::text_laws::{blank_texts_are_white, finding_is_splitting, holds, splits_round};
use vstd::prelude::*;

verus! {

// ---------------------------------------------------------------------------------------------
// Members of objects
// ---------------------------------------------------------------------------------------------

/// An object has one member of a name, and this is its value.
pub open spec fn has_member(
    object: Seq<(String, JsonValue)>,
    name: Seq<char>,
    value: JsonValue,
) -> bool {
    exists|i: int|
        0 <= i < object.len() && (#[trigger] object[i]).0@ == name && object[i].1 == value
            && forall|j: int| 0 <= j < object.len() && j != i ==> (#[trigger] object[j]).0@ != name
}

/// An object has no member of a name.
pub open spec fn lacks(object: Seq<(String, JsonValue)>, name: Seq<char>) -> bool {
    forall|i: int| 0 <= i < object.len() ==> (#[trigger] object[i]).0@ != name
}

/// A member is found by its name, wherever it stands.
pub proof fn members_are_found(
    object: Seq<(String, JsonValue)>,
    name: Seq<char>,
    value: JsonValue,
)
    ensures
        has_member(object, name, value) ==> member(object, name) == Some(value),
        lacks(object, name) ==> member(object, name) is None,
    decreases object.len(),
{
    if object.len() > 0 {
        let rest = object.skip(1);
        members_are_found(rest, name, value);
        if has_member(object, name, value) {
            let i = choose|i: int|
                0 <= i < object.len() && (#[trigger] object[i]).0@ == name && object[i].1 == value
                    && forall|j: int|
                    0 <= j < object.len() && j != i ==> (#[trigger] object[j]).0@ != name;
            if i > 0 {
                assert(object[0].0@ != name);
                assert(rest[i - 1] == object[i]);
                assert forall|j: int| 0 <= j < rest.len() && j != i - 1 implies (
                    #[trigger] rest[j]).0@ != name by {
                    assert(rest[j] == object[j + 1]);
                }
                assert(has_member(rest, name, value));
            }
        }
        if lacks(object, name) {
            assert(object[0].0@ != name);
            assert forall|j: int| 0 <= j < rest.len() implies (#[trigger] rest[j]).0@ != name by {
                assert(rest[j] == object[j + 1]);
            }
        }
    }
}

/// The objects of an array stand in their order; a value that is no object is passed over.
pub proof fn objects_are_picked_out(before: Seq<JsonValue>, value: JsonValue)
    ensures
        objects_among(Seq::empty()) == Seq::<Members>::empty(),
        value matches JsonValue::Object(object) ==> objects_among(before.push(value))
            == objects_among(before).push(object),
        !(value is Object) ==> objects_among(before.push(value)) == objects_among(before),
{
    assert(before.push(value).drop_last() =~= before);
}

/// The texts of an array stand in their order; a value that is no text is passed over.
pub proof fn texts_are_picked_out(before: Seq<JsonValue>, value: JsonValue)
    ensures
        texts_among(Seq::empty()) == Seq::<Seq<char>>::empty(),
        value matches JsonValue::Text(text) ==> texts_among(before.push(value)) == texts_among(
            before,
        ).push(text@),
        !(value is Text) ==> texts_among(before.push(value)) == texts_among(before),
{
    assert(before.push(value).drop_last() =~= before);
}

/// All values of an array are objects.
pub open spec fn only_objects(values: Seq<JsonValue>) -> bool {
    forall|i: int| 0 <= i < values.len() ==> (#[trigger] values[i]) is Object
}

/// All values of an array are texts.
pub open spec fn only_texts(values: Seq<JsonValue>) -> bool {
    forall|i: int| 0 <= i < values.len() ==> (#[trigger] values[i]) is Text
}

/// Of an array of objects every value is picked.
proof fn all_objects_are_picked(values: Seq<JsonValue>)
    requires
        only_objects(values),
    ensures
        objects_among(values).len() == values.len(),
        forall|i: int|
            0 <= i < values.len() ==> JsonValue::Object(#[trigger] objects_among(values)[i])
                == values[i],
    decreases values.len(),
{
    if values.len() > 0 {
        assert(values.last() is Object);
        assert forall|i: int| 0 <= i < values.drop_last().len() implies (
            #[trigger] values.drop_last()[i]) is Object by {
            assert(values.drop_last()[i] == values[i]);
        }
        all_objects_are_picked(values.drop_last());
        assert forall|i: int| 0 <= i < values.len() implies JsonValue::Object(
            #[trigger] objects_among(values)[i],
        ) == values[i] by {
            if i < values.len() - 1 {
                assert(objects_among(values)[i] == objects_among(values.drop_last())[i]);
                assert(values.drop_last()[i] == values[i]);
            }
        }
    }
}

/// Of an array of texts every value is picked.
proof fn all_texts_are_picked(values: Seq<JsonValue>)
    requires
        only_texts(values),
    ensures
        texts_among(values).len() == values.len(),
        forall|i: int|
            0 <= i < values.len() ==> #[trigger] texts_among(values)[i] == (match values[i] {
                JsonValue::Text(text) => text@,
                _ => Seq::empty(),
            }),
    decreases values.len(),
{
    if values.len() > 0 {
        assert(values.last() is Text);
        assert forall|i: int| 0 <= i < values.drop_last().len() implies (
            #[trigger] values.drop_last()[i]) is Text by {
            assert(values.drop_last()[i] == values[i]);
        }
        all_texts_are_picked(values.drop_last());
        assert forall|i: int| 0 <= i < values.len() implies #[trigger] texts_among(values)[i] == (
        match values[i] {
            JsonValue::Text(text) => text@,
            _ => Seq::empty(),
        }) by {
            if i < values.len() - 1 {
                assert(texts_among(values)[i] == texts_among(values.drop_last())[i]);
                assert(values.drop_last()[i] == values[i]);
            }
        }
    }
}

// ---------------------------------------------------------------------------------------------
// Container summaries
// ---------------------------------------------------------------------------------------------

/// A summary that is an object is read, and any other value is refused.
pub proof fn summaries_are_objects(
    value: JsonValue,
    result: Result<ContainerRecord, SummaryError>,
)
    requires
        call_ensures(ContainerRecord::from_summary_value, (value,), result),
    ensures
        result is Ok <==> value is Object,
        result is Err <==> !(value is Object),
{
}

/// What a summary says of the state and the status of a container is its state and its status,
/// and the container runs exactly if the state is one of four.
pub proof fn state_and_status_are_told_apart(
    object: Members,
    state: String,
    status: String,
    result: Result<ContainerRecord, SummaryError>,
)
    requires
        call_ensures(
            ContainerRecord::from_summary_value,
            (JsonValue::Object(object),),
            result,
        ),
        has_member(object@, "State"@, JsonValue::Text(state)),
        has_member(object@, "Status"@, JsonValue::Text(status)),
    ensures
        result matches Ok(record) && record.state@ == state@ && record.status@ == status@ && (
        record@.running() <==> (state@ == "running"@ || state@ == "restarting"@ || state@
            == "paused"@ || state@ == "created"@)),
{
    members_are_found(object@, "State"@, JsonValue::Text(state));
    members_are_found(object@, "Status"@, JsonValue::Text(status));
}

/// A container runs, by `is_running`, exactly if its state is one of four.
pub proof fn four_states_run(record: ContainerRecord, runs: bool)
    requires
        call_ensures(ContainerRecord::is_running, (&record,), runs),
    ensures
        runs <==> (record.state@ == "running"@ || record.state@ == "restarting"@ || record.state@
            == "paused"@ || record.state@ == "created"@),
{
}

/// A summary without a state or a status gives an unknown one.
pub proof fn missing_states_are_unknown(
    object: Members,
    result: Result<ContainerRecord, SummaryError>,
)
    requires
        call_ensures(
            ContainerRecord::from_summary_value,
            (JsonValue::Object(object),),
            result,
        ),
    ensures
        lacks(object@, "State"@) ==> (result matches Ok(record) && record.state@ == "unknown"@),
        lacks(object@, "Status"@) ==> (result matches Ok(record) && record.status@ == "unknown"@),
        lacks(object@, "Image"@) ==> (result matches Ok(record) && record.image@ == "<unknown>"@),
        lacks(object@, "Command"@) ==> (result matches Ok(record) && record.command@.len() == 0),
        lacks(object@, "Id"@) ==> (result matches Ok(record) && record.id@ == "unknown"@),
        lacks(object@, "Created"@) ==> (result matches Ok(record) && record.created is None),
        lacks(object@, "Ports"@) ==> (result matches Ok(record) && record.ports@.len() == 0),
        lacks(object@, "Labels"@) ==> (result matches Ok(record) && record.project is None
            && record.service is None),
        result matches Ok(record) && record.health is None,
{
    members_are_found(object@, "State"@, JsonValue::Null);
    members_are_found(object@, "Status"@, JsonValue::Null);
    members_are_found(object@, "Image"@, JsonValue::Null);
    members_are_found(object@, "Command"@, JsonValue::Null);
    members_are_found(object@, "Id"@, JsonValue::Null);
    members_are_found(object@, "Created"@, JsonValue::Null);
    members_are_found(object@, "Ports"@, JsonValue::Null);
    members_are_found(object@, "Labels"@, JsonValue::Null);
    reveal_strlit("");
    let record = result->Ok_0;
    assert(record@.ports.len() == record.ports@.len());
}

/// The identifier, the image and the command of a summary are those of the container; its short
/// identifier is the first twelve characters of the identifier, or all of them.
pub proof fn summary_names_the_container(
    object: Members,
    id: String,
    image: String,
    command: String,
    result: Result<ContainerRecord, SummaryError>,
)
    requires
        call_ensures(
            ContainerRecord::from_summary_value,
            (JsonValue::Object(object),),
            result,
        ),
        has_member(object@, "Id"@, JsonValue::Text(id)),
        has_member(object@, "Image"@, JsonValue::Text(image)),
        has_member(object@, "Command"@, JsonValue::Text(command)),
    ensures
        result matches Ok(record) && record.id@ == id@ && record.image@ == image@
            && record.command@ == command@ && record.short_id@.is_prefix_of(id@)
            && record.short_id@.len() == (if id@.len() <= 12 {
            id@.len()
        } else {
            12
        }),
{
    members_are_found(object@, "Id"@, JsonValue::Text(id));
    members_are_found(object@, "Image"@, JsonValue::Text(image));
    members_are_found(object@, "Command"@, JsonValue::Text(command));
}

/// When a container was made is told where it is a whole number of 64 bits with a sign.
pub proof fn summary_tells_the_creation(
    object: Members,
    number: JsonNumber,
    result: Result<ContainerRecord, SummaryError>,
)
    requires
        call_ensures(
            ContainerRecord::from_summary_value,
            (JsonValue::Object(object),),
            result,
        ),
        has_member(object@, "Created"@, JsonValue::Number(number)),
    ensures
        result matches Ok(record) && match number {
            JsonNumber::Unsigned(n) => if n <= 0x7fff_ffff_ffff_ffff {
                record.created matches Some(created) && created == n
            } else {
                record.created is None
            },
            JsonNumber::Negative(n) => record.created == Some(n),
            JsonNumber::Fractional => record.created is None,
        },
{
    members_are_found(object@, "Created"@, JsonValue::Number(number));
}

/// The texts from one on that are blank are passed over.
proof fn blank_texts_are_passed_over(texts: Seq<Seq<char>>, at: int)
    requires
        0 <= at <= texts.len(),
        forall|i: int| 0 <= i < at ==> all_white(#[trigger] texts[i]),
    ensures
        at < texts.len() && !all_white(texts[at]) ==> first_filled(texts) == Some(texts[at]),
        at == texts.len() ==> first_filled(texts) is None,
    decreases at,
{
    if at > 0 {
        blank_texts_are_white(texts[0]);
        assert forall|i: int| 0 <= i < at - 1 implies all_white(#[trigger] texts.skip(1)[i]) by {
            assert(texts.skip(1)[i] == texts[i + 1]);
        }
        blank_texts_are_passed_over(texts.skip(1), at - 1);
    } else if texts.len() > 0 {
        blank_texts_are_white(texts[0]);
    }
}

/// The slashes before a text are taken off.
proof fn slashes_are_taken_off(slashes: Seq<char>, name: Seq<char>, drop: spec_fn(char) -> bool)
    requires
        forall|i: int| 0 <= i < slashes.len() ==> drop(#[trigger] slashes[i]),
        name.len() > 0 ==> !drop(name[0]),
    ensures
        trimmed_start(slashes + name, drop) == name,
    decreases slashes.len(),
{
    if slashes.len() == 0 {
        assert(slashes + name =~= name);
    } else {
        assert((slashes + name)[0] == slashes[0]);
        assert((slashes + name).skip(1) =~= slashes.skip(1) + name);
        slashes_are_taken_off(slashes.skip(1), name, drop);
    }
}

/// The first name of a summary that is not blank is the name of the container, without the
/// slashes before it.
pub proof fn the_first_name_counts(
    object: Members,
    names: Vec<JsonValue>,
    at: int,
    slashes: Seq<char>,
    name: Seq<char>,
    result: Result<ContainerRecord, SummaryError>,
)
    requires
        call_ensures(
            ContainerRecord::from_summary_value,
            (JsonValue::Object(object),),
            result,
        ),
        has_member(object@, "Names"@, JsonValue::Array(names)),
        only_texts(names@),
        0 <= at < names@.len(),
        forall|i: int|
            0 <= i < at ==> (#[trigger] names@[i] matches JsonValue::Text(text) && all_white(
                text@,
            )),
        names@[at] matches JsonValue::Text(text) && text@ == slashes + name && !all_white(text@),
        forall|i: int| 0 <= i < slashes.len() ==> #[trigger] slashes[i] == '/',
        name.len() > 0 ==> name[0] != '/',
    ensures
        result matches Ok(record) && record.name@ == name,
{
    members_are_found(object@, "Names"@, JsonValue::Array(names));
    all_texts_are_picked(names@);
    let found = texts_among(names@);
    assert forall|i: int| 0 <= i < at implies all_white(#[trigger] found[i]) by {
        assert(names@[i] is Text);
    }
    assert(found[at] == slashes + name);
    blank_texts_are_passed_over(found, at);
    slashes_are_taken_off(slashes, name, |c: char| c == '/');
}

/// A container without a name that is not blank is named by its short identifier.
pub proof fn the_identifier_stands_in_for_a_name(
    object: Members,
    names: Vec<JsonValue>,
    result: Result<ContainerRecord, SummaryError>,
)
    requires
        call_ensures(
            ContainerRecord::from_summary_value,
            (JsonValue::Object(object),),
            result,
        ),
        lacks(object@, "Names"@) || (has_member(object@, "Names"@, JsonValue::Array(names))
            && only_texts(names@) && forall|i: int|
            0 <= i < names@.len() ==> (#[trigger] names@[i] matches JsonValue::Text(text)
                && all_white(text@))),
    ensures
        result matches Ok(record) && record.name@ == record.short_id@,
{
    members_are_found(object@, "Names"@, JsonValue::Array(names));
    if lacks(object@, "Names"@) {
        assert(texts_among(elements(member(object@, "Names"@))) =~= Seq::empty());
    } else {
        all_texts_are_picked(names@);
        let found = texts_among(names@);
        assert forall|i: int| 0 <= i < found.len() implies all_white(#[trigger] found[i]) by {
            assert(names@[i] is Text);
        }
        blank_texts_are_passed_over(found, found.len() as int);
    }
}

/// The Compose project and service of a container are its two labels of Compose, where they are
/// not empty.
pub proof fn labels_tell_project_and_service(
    object: Members,
    labels: Members,
    project: String,
    service: String,
    result: Result<ContainerRecord, SummaryError>,
)
    requires
        call_ensures(
            ContainerRecord::from_summary_value,
            (JsonValue::Object(object),),
            result,
        ),
        has_member(object@, "Labels"@, JsonValue::Object(labels)),
        has_member(labels@, "com.docker.compose.project"@, JsonValue::Text(project)) || lacks(
            labels@,
            "com.docker.compose.project"@,
        ),
        has_member(labels@, "com.docker.compose.service"@, JsonValue::Text(service)) || lacks(
            labels@,
            "com.docker.compose.service"@,
        ),
    ensures
        result matches Ok(record) && match record.project {
            Some(text) => !lacks(labels@, "com.docker.compose.project"@) && text@ == project@
                && project@.len() > 0,
            None => lacks(labels@, "com.docker.compose.project"@) || project@.len() == 0,
        },
        result matches Ok(record) && match record.service {
            Some(text) => !lacks(labels@, "com.docker.compose.service"@) && text@ == service@
                && service@.len() > 0,
            None => lacks(labels@, "com.docker.compose.service"@) || service@.len() == 0,
        },
{
    members_are_found(object@, "Labels"@, JsonValue::Object(labels));
    members_are_found(labels@, "com.docker.compose.project"@, JsonValue::Text(project));
    members_are_found(labels@, "com.docker.compose.service"@, JsonValue::Text(service));
    let record = result->Ok_0;
    assert(record@.project == label_of(object@, "com.docker.compose.project"@));
    assert(record@.service == label_of(object@, "com.docker.compose.service"@));
}

/// A port is told by its address, its two numbers and its protocol, each by its own member.
pub proof fn ports_are_read(
    object: Members,
    ports: Vec<JsonValue>,
    at: int,
    port: Members,
    ip: String,
    private_port: u64,
    public_port: u64,
    typ: String,
    result: Result<ContainerRecord, SummaryError>,
)
    requires
        call_ensures(
            ContainerRecord::from_summary_value,
            (JsonValue::Object(object),),
            result,
        ),
        has_member(object@, "Ports"@, JsonValue::Array(ports)),
        only_objects(ports@),
        0 <= at < ports@.len(),
        ports@[at] == JsonValue::Object(port),
        has_member(port@, "IP"@, JsonValue::Text(ip)),
        has_member(
            port@,
            "PrivatePort"@,
            JsonValue::Number(JsonNumber::Unsigned(private_port)),
        ),
        has_member(port@, "PublicPort"@, JsonValue::Number(JsonNumber::Unsigned(public_port)))
            || lacks(port@, "PublicPort"@),
        has_member(port@, "Type"@, JsonValue::Text(typ)),
    ensures
        result matches Ok(record) && record.ports@.len() == ports@.len() && record.ports@[at]@.ip
            == Some(ip@) && record.ports@[at].private_port == Some(private_port) && (
        record.ports@[at].public_port == if lacks(port@, "PublicPort"@) {
            None::<u64>
        } else {
            Some(public_port)
        }) && record.ports@[at]@.typ == Some(typ@),
{
    members_are_found(object@, "Ports"@, JsonValue::Array(ports));
    members_are_found(port@, "IP"@, JsonValue::Text(ip));
    members_are_found(
        port@,
        "PrivatePort"@,
        JsonValue::Number(JsonNumber::Unsigned(private_port)),
    );
    members_are_found(
        port@,
        "PublicPort"@,
        JsonValue::Number(JsonNumber::Unsigned(public_port)),
    );
    members_are_found(port@, "Type"@, JsonValue::Text(typ));
    all_objects_are_picked(ports@);
    let record = result->Ok_0;
    assert(record@.ports.len() == record.ports@.len());
    assert(record@.ports[at] == record.ports@[at]@);
    assert(record@.ports[at] == port_of(objects_among(ports@)[at]@));
}

// ---------------------------------------------------------------------------------------------
// Details
// ---------------------------------------------------------------------------------------------

/// The text of a member, or another one where the object has no such member.
pub open spec fn tells(
    object: Seq<(String, JsonValue)>,
    name: Seq<char>,
    text: Seq<char>,
    default: Seq<char>,
) -> bool {
    ||| exists|value: String| #[trigger] has_member(object, name, JsonValue::Text(value)) && value@
        == text
    ||| lacks(object, name) && text == default
}

/// What a member tells is read from it.
proof fn told_texts_are_read(
    object: Seq<(String, JsonValue)>,
    name: Seq<char>,
    text: Seq<char>,
    default: Seq<char>,
)
    requires
        tells(object, name, text, default),
    ensures
        crate::json::text_or(text_value(member(object, name)), default) == text,
{
    if lacks(object, name) && text == default {
        members_are_found(object, name, JsonValue::Null);
    } else {
        let value = choose|value: String| #[trigger]
            has_member(object, name, JsonValue::Text(value)) && value@ == text;
        members_are_found(object, name, JsonValue::Text(value));
    }
}

/// A value lies at a path of one, two or three names.
proof fn short_paths(
    object: Seq<(String, JsonValue)>,
    first: Seq<char>,
    second: Seq<char>,
    third: Seq<char>,
)
    ensures
        at_path(object, seq![first]) == member(object, first),
        at_path(object, seq![first, second]) == (match member(object, first) {
            Some(JsonValue::Object(inner)) => member(inner@, second),
            _ => None,
        }),
        at_path(object, seq![first, second, third]) == (match member(object, first) {
            Some(JsonValue::Object(inner)) => match member(inner@, second) {
                Some(JsonValue::Object(innermost)) => member(innermost@, third),
                _ => None,
            },
            _ => None,
        }),
{
    reveal_with_fuel(at_path, 4);
    assert(seq![first, second].skip(1) =~= seq![second]);
    assert(seq![first, second, third].skip(1) =~= seq![second, third]);
    assert(seq![second, third].skip(1) =~= seq![third]);
}

/// Every mount of an inspection has a row, in their order: its label is where it is mounted, and
/// its value is its kind, what is mounted, and whether that can be written to, cannot, or is not
/// known.
pub proof fn mounts_are_shown(
    summary: ContainerRecord,
    object: Members,
    mounts: Vec<JsonValue>,
    at: int,
    mount: Members,
    target: Seq<char>,
    kind: Seq<char>,
    source: Seq<char>,
    details: ContainerDetails,
)
    requires
        call_ensures(
            ContainerDetails::from_inspect_value,
            (&summary, JsonValue::Object(object)),
            details,
        ),
        has_member(object@, "Mounts"@, JsonValue::Array(mounts)),
        only_objects(mounts@),
        0 <= at < mounts@.len(),
        mounts@[at] == JsonValue::Object(mount),
        tells(mount@, "Destination"@, target, "?"@),
        tells(mount@, "Type"@, kind, "mount"@),
        tells(mount@, "Source"@, source, "<anonymous>"@),
    ensures
        details.mounts@.len() == mounts@.len(),
        details.mounts@[at].label@ == target,
        has_member(mount@, "RW"@, JsonValue::Bool(true)) ==> details.mounts@[at].value@ == kind
            + seq![' '] + source + seq![' ', '(', 'r', 'w', ')'],
        has_member(mount@, "RW"@, JsonValue::Bool(false)) ==> details.mounts@[at].value@ == kind
            + seq![' '] + source + seq![' ', '(', 'r', 'o', ')'],
        lacks(mount@, "RW"@) ==> details.mounts@[at].value@ == kind + seq![' '] + source
            + seq![' ', '(', '?', ')'],
{
    short_paths(object@, "Mounts"@, "Mounts"@, "Mounts"@);
    members_are_found(object@, "Mounts"@, JsonValue::Array(mounts));
    told_texts_are_read(mount@, "Destination"@, target, "?"@);
    told_texts_are_read(mount@, "Type"@, kind, "mount"@);
    told_texts_are_read(mount@, "Source"@, source, "<anonymous>"@);
    members_are_found(mount@, "RW"@, JsonValue::Bool(true));
    members_are_found(mount@, "RW"@, JsonValue::Bool(false));
    all_objects_are_picked(mounts@);
    let shown = details@.mounts;
    assert(shown == mounts_tab(object@));
    assert(shown.len() == details.mounts@.len());
    assert(shown[at] == mount_row(mount@));
    assert(shown[at] == details.mounts@[at]@);
    reveal_strlit(" ");
    reveal_strlit(" (");
    reveal_strlit(")");
    reveal_strlit("rw");
    reveal_strlit("ro");
    reveal_strlit("?");
    let value = details.mounts@[at].value@;
    let start = kind + seq![' '] + source;
    assert(" "@ =~= seq![' ']);
    if has_member(mount@, "RW"@, JsonValue::Bool(true)) {
        assert(value =~= start + seq![' ', '(', 'r', 'w', ')']);
    }
    if has_member(mount@, "RW"@, JsonValue::Bool(false)) {
        assert(value =~= start + seq![' ', '(', 'r', 'o', ')']);
    }
    if lacks(mount@, "RW"@) {
        assert(value =~= start + seq![' ', '(', '?', ')']);
    }
}

/// A mount that can be written to and one that cannot have different rows.
pub proof fn writable_mounts_look_different(
    summary: ContainerRecord,
    object: Members,
    mounts: Vec<JsonValue>,
    first: int,
    second: int,
    writable: Members,
    protected: Members,
    target: Seq<char>,
    kind: Seq<char>,
    source: Seq<char>,
    details: ContainerDetails,
)
    requires
        call_ensures(
            ContainerDetails::from_inspect_value,
            (&summary, JsonValue::Object(object)),
            details,
        ),
        has_member(object@, "Mounts"@, JsonValue::Array(mounts)),
        only_objects(mounts@),
        0 <= first < mounts@.len(),
        0 <= second < mounts@.len(),
        mounts@[first] == JsonValue::Object(writable),
        mounts@[second] == JsonValue::Object(protected),
        tells(writable@, "Destination"@, target, "?"@),
        tells(writable@, "Type"@, kind, "mount"@),
        tells(writable@, "Source"@, source, "<anonymous>"@),
        tells(protected@, "Destination"@, target, "?"@),
        tells(protected@, "Type"@, kind, "mount"@),
        tells(protected@, "Source"@, source, "<anonymous>"@),
        has_member(writable@, "RW"@, JsonValue::Bool(true)),
        has_member(protected@, "RW"@, JsonValue::Bool(false)),
    ensures
        details.mounts@[first].label@ == details.mounts@[second].label@,
        details.mounts@[first].value@ != details.mounts@[second].value@,
{
    mounts_are_shown(
        summary,
        object,
        mounts,
        first,
        writable,
        target,
        kind,
        source,
        details,
    );
    mounts_are_shown(
        summary,
        object,
        mounts,
        second,
        protected,
        target,
        kind,
        source,
        details,
    );
    let start = kind + seq![' '] + source;
    let one = start + seq![' ', '(', 'r', 'w', ')'];
    let other = start + seq![' ', '(', 'r', 'o', ')'];
    assert(one[start.len() as int + 3] == 'w');
    assert(other[start.len() as int + 3] == 'o');
}

/// Where nothing is mounted, one row says so.
pub proof fn no_mounts_are_said(
    summary: ContainerRecord,
    object: Members,
    details: ContainerDetails,
)
    requires
        call_ensures(
            ContainerDetails::from_inspect_value,
            (&summary, JsonValue::Object(object)),
            details,
        ),
        lacks(object@, "Mounts"@),
    ensures
        details.mounts@.len() == 1,
        details.mounts@[0].label@ == "Mounts"@,
        details.mounts@[0].value@ == "No mounts"@,
{
    short_paths(object@, "Mounts"@, "Mounts"@, "Mounts"@);
    members_are_found(object@, "Mounts"@, JsonValue::Null);
    assert(details@.mounts == mounts_tab(object@));
    assert(details@.mounts.len() == details.mounts@.len());
    assert(details@.mounts[0] == details.mounts@[0]@);
}

/// A text with a character in it is cut at the first such character.
proof fn first_index_is_first(before: Seq<char>, c: char, behind: Seq<char>)
    requires
        forall|i: int| 0 <= i < before.len() ==> #[trigger] before[i] != c,
    ensures
        first_index(before + seq![c] + behind, c) == before.len(),
        first_index(before, c) == before.len(),
    decreases before.len(),
{
    let whole = before + seq![c] + behind;
    if before.len() > 0 {
        assert(whole[0] == before[0]);
        assert(whole.skip(1) =~= before.skip(1) + seq![c] + behind);
        first_index_is_first(before.skip(1), c, behind);
    }
}

/// Every variable of the environment has a row, in their order: its name stands before the first
/// equals sign and its value behind it; a variable without an equals sign has no value.
pub proof fn variables_are_shown(
    summary: ContainerRecord,
    object: Members,
    config: Members,
    variables: Vec<JsonValue>,
    at: int,
    variable: String,
    name: Seq<char>,
    value: Seq<char>,
    details: ContainerDetails,
)
    requires
        call_ensures(
            ContainerDetails::from_inspect_value,
            (&summary, JsonValue::Object(object)),
            details,
        ),
        has_member(object@, "Config"@, JsonValue::Object(config)),
        has_member(config@, "Env"@, JsonValue::Array(variables)),
        only_texts(variables@),
        0 <= at < variables@.len(),
        variables@[at] == JsonValue::Text(variable),
        forall|i: int| 0 <= i < name.len() ==> #[trigger] name[i] != '=',
    ensures
        details.env@.len() == variables@.len(),
        variable@ == name + seq!['='] + value ==> details.env@[at].label@ == name
            && details.env@[at].value@ == value,
        variable@ == name ==> details.env@[at].label@ == name && details.env@[at].value@.len()
            == 0,
{
    short_paths(object@, "Config"@, "Env"@, "Env"@);
    members_are_found(object@, "Config"@, JsonValue::Object(config));
    members_are_found(config@, "Env"@, JsonValue::Array(variables));
    all_texts_are_picked(variables@);
    first_index_is_first(name, '=', value);
    assert(details@.env.len() == details.env@.len());
    assert(details@.env[at] == env_row(variable@));
    assert(details@.env[at] == details.env@[at]@);
    let whole = name + seq!['='] + value;
    assert(whole.take(name.len() as int) =~= name);
    assert(whole.skip(name.len() as int + 1) =~= value);
}

/// Where a port is published is told by the addresses and ports of its bindings, with commas
/// between them.
pub proof fn bindings_are_shown(
    values: Vec<JsonValue>,
    at: int,
    binding: Members,
    address: Seq<char>,
    port: Seq<char>,
)
    requires
        only_objects(values@),
        0 <= at < values@.len(),
        values@[at] == JsonValue::Object(binding),
        tells(binding@, "HostIp"@, address, "0.0.0.0"@),
        tells(binding@, "HostPort"@, port, "?"@),
    ensures
        values@.len() == 1 ==> bindings_text(JsonValue::Array(values)) == address + seq![':']
            + port,
        binding_text(binding@) == address + seq![':'] + port,
        exists|parts: Seq<Seq<char>>|
            parts.len() == values@.len() && parts[at] == address + seq![':'] + port
                && bindings_text(JsonValue::Array(values)) == #[trigger] joined(parts, ", "@),
{
    told_texts_are_read(binding@, "HostIp"@, address, "0.0.0.0"@);
    told_texts_are_read(binding@, "HostPort"@, port, "?"@);
    all_objects_are_picked(values@);
    reveal_strlit(":");
    assert(binding_text(binding@) =~= address + seq![':'] + port);
    let parts = objects_among(values@).map_values(|b: Members| binding_text(b@));
    assert(parts[at] == address + seq![':'] + port);
    assert(bindings_text(JsonValue::Array(values)) == joined(parts, ", "@));
}

/// A port without bindings is told not to be published.
pub proof fn unbound_ports_are_not_published(values: Vec<JsonValue>)
    requires
        values@.len() == 0,
    ensures
        bindings_text(JsonValue::Array(values)) == "not published"@,
        bindings_text(JsonValue::Null) == "not published"@,
{
}

/// The health tab tells the status of the check and how often it failed on end, and then the
/// outcome of the last three checks: for each of them what it put out, without the white space
/// round it.
pub proof fn health_is_shown(
    summary: ContainerRecord,
    object: Members,
    state: Members,
    health: Members,
    status: String,
    streak: u64,
    checks: Vec<JsonValue>,
    recent: int,
    check: Members,
    output: Seq<char>,
    details: ContainerDetails,
)
    requires
        call_ensures(
            ContainerDetails::from_inspect_value,
            (&summary, JsonValue::Object(object)),
            details,
        ),
        has_member(object@, "State"@, JsonValue::Object(state)),
        has_member(state@, "Health"@, JsonValue::Object(health)),
        has_member(health@, "Status"@, JsonValue::Text(status)),
        streak <= 0x7fff_ffff_ffff_ffff,
        has_member(
            health@,
            "FailingStreak"@,
            JsonValue::Number(JsonNumber::Unsigned(streak)),
        ),
        has_member(health@, "Log"@, JsonValue::Array(checks)),
        only_objects(checks@),
        0 <= recent < checks@.len(),
        recent < 3,
        checks@[checks@.len() - 1 - recent] == JsonValue::Object(check),
        tells(check@, "Output"@, output, ""@),
    ensures
        details.health@.len() == 2 + (if checks@.len() <= 3 {
            checks@.len()
        } else {
            3
        }),
        details.health@[0].label@ == "Status"@,
        details.health@[0].value@ == status@,
        details.health@[1].label@ == "Failing streak"@,
        details.health@[1].value@ == decimal(streak as nat),
        details.health@[details.health@.len() - 1 - recent].value@ == trimmed(output),
        lacks(check@, "ExitCode"@) ==> details.health@[details.health@.len() - 1 - recent].label@
            == "Log exit"@,
        forall|code: String| #[trigger]
            has_member(check@, "ExitCode"@, JsonValue::Text(code)) ==> details.health@[
                details.health@.len() - 1 - recent
            ].label@ == "Log "@ + code@,
{
    assert forall|code: String| #[trigger]
        has_member(check@, "ExitCode"@, JsonValue::Text(code)) implies member(check@, "ExitCode"@)
        == Some(JsonValue::Text(code)) by {
        members_are_found(check@, "ExitCode"@, JsonValue::Text(code));
    }
    short_paths(object@, "State"@, "Health"@, "Status"@);
    short_paths(object@, "State"@, "Health"@, "FailingStreak"@);
    short_paths(object@, "State"@, "Health"@, "Log"@);
    members_are_found(object@, "State"@, JsonValue::Object(state));
    members_are_found(state@, "Health"@, JsonValue::Object(health));
    members_are_found(health@, "Status"@, JsonValue::Text(status));
    members_are_found(
        health@,
        "FailingStreak"@,
        JsonValue::Number(JsonNumber::Unsigned(streak)),
    );
    members_are_found(health@, "Log"@, JsonValue::Array(checks));
    members_are_found(check@, "ExitCode"@, JsonValue::Null);
    all_objects_are_picked(checks@);
    told_texts_are_read(check@, "Output"@, output, ""@);
    let shown = details@.health;
    let all = objects_among(checks@);
    let last = last_three(all);
    let len = details.health@.len() as int;
    assert(shown.len() == len);
    assert(shown.len() == 2 + last.len());
    assert(last[last.len() - 1 - recent] == all[all.len() - 1 - recent]);
    assert(shown[len - 1 - recent] == check_row(check@));
    assert(shown[len - 1 - recent] == details.health@[len - 1 - recent]@);
    assert(shown[0] == details.health@[0]@);
    assert(shown[1] == details.health@[1]@);
    reveal_strlit("Log ");
    reveal_strlit("exit");
    reveal_strlit("Log exit");
    assert("Log "@ + "exit"@ =~= "Log exit"@);
}

/// Without a health check, one row says so.
pub proof fn no_health_check_is_said(
    summary: ContainerRecord,
    object: Members,
    details: ContainerDetails,
)
    requires
        call_ensures(
            ContainerDetails::from_inspect_value,
            (&summary, JsonValue::Object(object)),
            details,
        ),
        lacks(object@, "State"@),
    ensures
        details.health@.len() == 1,
        details.health@[0].label@ == "Health"@,
        details.health@[0].value@ == "No health check"@,
{
    short_paths(object@, "State"@, "Health"@, "Status"@);
    short_paths(object@, "State"@, "Health"@, "FailingStreak"@);
    short_paths(object@, "State"@, "Health"@, "Log"@);
    members_are_found(object@, "State"@, JsonValue::Null);
    assert(last_three(Seq::<Members>::empty()).len() == 0);
    assert(objects_among(Seq::empty()) =~= Seq::<Members>::empty());
    assert(details@.health.len() == details.health@.len());
    assert(details@.health[0] == details.health@[0]@);
}

/// The overview begins with the name, the identifier, the image, the state and the status of the
/// container, and goes on with its project and its service where it has them.
pub proof fn the_overview_begins_with_the_summary(
    summary: ContainerRecord,
    object: Members,
    details: ContainerDetails,
)
    requires
        call_ensures(
            ContainerDetails::from_inspect_value,
            (&summary, JsonValue::Object(object)),
            details,
        ),
    ensures
        details.overview@.len() >= 5,
        details.overview@[0].label@ == "Name"@ && details.overview@[0].value@ == summary.name@,
        details.overview@[1].label@ == "ID"@ && details.overview@[1].value@ == summary.id@,
        details.overview@[2].label@ == "Image"@ && details.overview@[2].value@ == summary.image@,
        details.overview@[3].label@ == "State"@ && details.overview@[3].value@ == summary.state@,
        details.overview@[4].label@ == "Status"@ && details.overview@[4].value@ == summary.status@,
        summary.project matches Some(project) ==> details.overview@.len() >= 6
            && details.overview@[5].label@ == "Project"@ && details.overview@[5].value@ == project@,
        summary.project is Some && summary.service is Some ==> details.overview@.len() >= 7
            && details.overview@[6].label@ == "Service"@ && details.overview@[6].value@
            == summary.service->0@,
        summary.project is None && summary.service is Some ==> details.overview@.len() >= 6
            && details.overview@[5].label@ == "Service"@ && details.overview@[5].value@
            == summary.service->0@,
{
    let shown = details@.overview;
    assert(shown.len() == details.overview@.len());
    assert(forall|i: int|
        0 <= i < shown.len() ==> #[trigger] shown[i] == details.overview@[i]@);
    assert(shown[0] == ("Name"@, summary@.name));
    assert(shown[1] == ("ID"@, summary@.id));
    assert(shown[2] == ("Image"@, summary@.image));
    assert(shown[3] == ("State"@, summary@.state));
    assert(shown[4] == ("Status"@, summary@.status));
    if summary.project is Some {
        assert(shown[5] == ("Project"@, summary@.project->0));
        if summary.service is Some {
            assert(shown[6] == ("Service"@, summary@.service->0));
        }
    } else if summary.service is Some {
        assert(shown[5] == ("Service"@, summary@.service->0));
    }
}

/// The overview ends with the command where it is not empty, when the container was started, and
/// when it was made.
pub proof fn the_overview_ends_with_the_times(
    summary: ContainerRecord,
    object: Members,
    state: Members,
    started: String,
    created: String,
    details: ContainerDetails,
)
    requires
        call_ensures(
            ContainerDetails::from_inspect_value,
            (&summary, JsonValue::Object(object)),
            details,
        ),
        has_member(object@, "State"@, JsonValue::Object(state)),
        has_member(state@, "StartedAt"@, JsonValue::Text(started)),
        has_member(object@, "Created"@, JsonValue::Text(created)),
    ensures
        details.overview@.len() >= 7,
        details.overview@[details.overview@.len() - 1].label@ == "Created"@,
        details.overview@[details.overview@.len() - 1].value@ == created@,
        details.overview@[details.overview@.len() - 2].label@ == "Started"@,
        details.overview@[details.overview@.len() - 2].value@ == started@,
        summary.command@.len() > 0 ==> details.overview@[details.overview@.len() - 3].label@
            == "Command"@ && details.overview@[details.overview@.len() - 3].value@
            == summary.command@,
{
    short_paths(object@, "State"@, "StartedAt"@, "StartedAt"@);
    members_are_found(object@, "State"@, JsonValue::Object(state));
    members_are_found(state@, "StartedAt"@, JsonValue::Text(started));
    members_are_found(object@, "Created"@, JsonValue::Text(created));
    let shown = details@.overview;
    let len = shown.len() as int;
    assert(len == details.overview@.len());
    assert(shown[len - 1] == ("Created"@, created@));
    assert(shown[len - 1] == details.overview@[len - 1]@);
    assert(shown[len - 2] == ("Started"@, started@));
    assert(shown[len - 2] == details.overview@[len - 2]@);
    if summary.command@.len() > 0 {
        assert(shown[len - 3] == ("Command"@, summary@.command));
        assert(shown[len - 3] == details.overview@[len - 3]@);
    }
}

/// Each tab shows its own rows, and the log tab those of the overview.
pub proof fn tabs_show_their_rows(details: ContainerDetails)
    ensures
        tab_rows(details, DetailTab::Overview) == details.overview@,
        tab_rows(details, DetailTab::Env) == details.env@,
        tab_rows(details, DetailTab::Ports) == details.ports@,
        tab_rows(details, DetailTab::Mounts) == details.mounts@,
        tab_rows(details, DetailTab::Health) == details.health@,
        tab_rows(details, DetailTab::Logs) == details.overview@,
{
}

// ---------------------------------------------------------------------------------------------
// Ports in one line
// ---------------------------------------------------------------------------------------------

/// A published port is shown with its address, its two numbers and its protocol; one that is not
/// published with its number and its protocol alone.
pub proof fn ports_are_shown(port: PortModel, public: u64, private: u64)
    requires
        port.private_port == Some(private),
    ensures
        port.public_port == Some(public) && port.ip is Some && port.ip->0.len() > 0
            && port.typ is Some ==> port.shown() == port.ip->0 + seq![':'] + decimal(public as nat)
            + seq!['-', '>'] + decimal(private as nat) + seq!['/'] + port.typ->0,
        port.public_port is None && port.typ is Some ==> port.shown() == decimal(private as nat)
            + seq!['/'] + port.typ->0,
        port.public_port is None && port.typ is None ==> port.shown() == decimal(private as nat)
            + seq!['/', 't', 'c', 'p'],
        port.public_port == Some(public) && (port.ip is None || port.ip->0.len() == 0)
            && port.typ is Some ==> port.shown() == "0.0.0.0"@ + seq![':'] + decimal(public as nat)
            + seq!['-', '>'] + decimal(private as nat) + seq!['/'] + port.typ->0,
{
    reveal_strlit(":");
    reveal_strlit("->");
    reveal_strlit("/");
    reveal_strlit("tcp");
    assert(":"@ =~= seq![':']);
    assert("->"@ =~= seq!['-', '>']);
    assert("/"@ =~= seq!['/']);
    let number = decimal(private as nat);
    assert(number + "/"@ + "tcp"@ =~= number + seq!['/', 't', 'c', 'p']);
}

/// The ports of a container are shown one after the other with commas between them, or as a dash
/// where there are none.
pub proof fn all_ports_are_shown(record: RecordModel, at: int)
    ensures
        record.ports.len() == 0 ==> record.ports_line() == seq!['-'],
        record.ports.len() == 1 ==> record.ports_line() == record.ports[0].shown(),
        0 <= at < record.ports.len() ==> exists|parts: Seq<Seq<char>>|
            parts.len() == record.ports.len() && parts[at] == record.ports[at].shown()
                && record.ports_line() == #[trigger] joined(parts, ", "@),
{
    reveal_strlit("-");
    assert("-"@ =~= seq!['-']);
    let parts = record.ports.map_values(|port: PortModel| port.shown());
    if record.ports.len() > 0 {
        assert(record.ports_line() == joined(parts, ", "@));
    }
}

// ---------------------------------------------------------------------------------------------
// The list
// ---------------------------------------------------------------------------------------------

/// A container answers to a query that is blank, and to one that its identifier, its short
/// identifier, its name, its image, its command, its project or its service holds in any case; to
/// no other.
pub proof fn containers_answer_to_what_they_hold(record: RecordModel, query: Seq<char>)
    ensures
        record.matches(query) <==> (all_white(query) || holds(record.id, query) || holds(
            record.short_id,
            query,
        ) || holds(record.name, query) || holds(record.image, query) || holds(
            record.command,
            query,
        ) || (record.project is Some && holds(record.project->0, query)) || (
        record.service is Some && holds(record.service->0, query))),
{
    blank_texts_are_white(query);
    finding_is_splitting(record.id, query);
    finding_is_splitting(record.short_id, query);
    finding_is_splitting(record.name, query);
    finding_is_splitting(record.image, query);
    finding_is_splitting(record.command, query);
    reveal_strlit("");
    let empty = ""@;
    finding_is_splitting(empty, query);
    if record.project is Some {
        finding_is_splitting(record.project->0, query);
    }
    if record.service is Some {
        finding_is_splitting(record.service->0, query);
    }
    if holds(empty, query) {
        let (a, m, b) = choose|a: Seq<char>, m: Seq<char>, b: Seq<char>|
            splits_round(empty, a, m, b, query);
        assert((a + m + b).len() == a.len() + m.len() + b.len());
        assert(query.len() == 0);
    }
}

/// A container is listed exactly if it is there, runs or stopped ones are shown, and belongs to
/// the project that is asked for, if one is.
pub proof fn the_list_holds_what_is_asked_for(app: AppModel, record: ContainerRecord)
    ensures
        app.visible().contains(record) <==> {
            &&& app.containers.contains(record)
            &&& app.show_stopped || record@.running()
            &&& app.project_filter is None || record@.project == app.project_filter
        },
{
    passing_is_complete(app.containers, app.show_stopped, app.project_filter, None, record);
}

/// The list keeps the order of the containers.
pub proof fn the_list_keeps_the_order(
    app: AppModel,
    containers: Seq<ContainerRecord>,
    record: ContainerRecord,
)
    requires
        app.containers == containers.push(record),
    ensures
        app.visible() == (AppModel { containers, ..app }).visible() || app.visible() == (AppModel {
            containers,
            ..app
        }).visible().push(record),
{
    reveal(Seq::filter);
    assert(containers.push(record).drop_last() =~= containers);
}

/// A text that may be absent stands no later than another: an absent one before all others.
pub open spec fn no_later(a: Option<Seq<char>>, b: Option<Seq<char>>) -> bool {
    match (a, b) {
        (None, _) => true,
        (Some(_), None) => false,
        (Some(x), Some(y)) => x == y || text_less(x, y),
    }
}

/// Sorted containers stand in order: those that run first, then by project, by service where the
/// project is the same, and by name where the service is too.
pub proof fn containers_stand_in_order(
    before: Seq<ContainerRecord>,
    after: Seq<ContainerRecord>,
    i: int,
    j: int,
)
    requires
        stably_sorted(before, after),
        0 <= i < j < after.len(),
    ensures
        after[j]@.running() ==> after[i]@.running(),
        after[i]@.running() == after[j]@.running() ==> no_later(
            after[i]@.project,
            after[j]@.project,
        ),
        after[i]@.running() == after[j]@.running() && after[i]@.project == after[j]@.project
            ==> no_later(after[i]@.service, after[j]@.service),
        after[i]@.running() == after[j]@.running() && after[i]@.project == after[j]@.project
            && after[i]@.service == after[j]@.service ==> no_later(
            Some(after[i]@.name),
            Some(after[j]@.name),
        ),
{
    let places = choose|places: Seq<int>| sorted_from(before, after, places);
    assert(stands_before(after, places, i, j));
    let a = after[i]@;
    let b = after[j]@;
    record_order_is_weak(a, b, a);
    text_order_is_total(a.name, b.name);
    if a.project is Some && b.project is Some {
        text_order_is_total(a.project->0, b.project->0);
    }
    if a.service is Some && b.service is Some {
        text_order_is_total(a.service->0, b.service->0);
    }
}

/// Sorting keeps the containers: each one is still there, none comes in, and two that neither
/// stands before the other keep their order.
pub proof fn sorting_keeps_the_containers(
    before: Seq<ContainerRecord>,
    after: Seq<ContainerRecord>,
    p: int,
    q: int,
)
    requires
        stably_sorted(before, after),
        0 <= p < q < before.len(),
    ensures
        after.len() == before.len(),
        exists|i: int, j: int|
            0 <= i < after.len() && 0 <= j < after.len() && i != j && #[trigger] after[i]
                == before[p] && #[trigger] after[j] == before[q] && (before[p]@.running()
                == before[q]@.running() && before[p]@.project == before[q]@.project
                && before[p]@.service == before[q]@.service && before[p]@.name == before[q]@.name
                ==> i < j),
{
    let places = choose|places: Seq<int>| sorted_from(before, after, places);
    let i = permutation_reaches(places, before.len(), p);
    let j = permutation_reaches(places, before.len(), q);
    assert(after[i] == before[p] && after[j] == before[q]);
    if j < i {
        assert(stands_before(after, places, j, i));
        text_order_is_total(before[p]@.name, before[q]@.name);
    }
}


// ---------------------------------------------------------------------------------------------
// Ports of an inspection
// ---------------------------------------------------------------------------------------------

/// Every port of an inspection has a row that tells where it is published, and no other row is
/// there; the rows stand in the order of their labels.
pub proof fn inspected_ports_are_shown(
    summary: ContainerRecord,
    object: Members,
    network: Members,
    ports: Members,
    at: int,
    details: ContainerDetails,
)
    requires
        call_ensures(
            ContainerDetails::from_inspect_value,
            (&summary, JsonValue::Object(object)),
            details,
        ),
        has_member(object@, "NetworkSettings"@, JsonValue::Object(network)),
        has_member(network@, "Ports"@, JsonValue::Object(ports)),
        0 <= at < ports@.len(),
        forall|i: int| 0 <= i < ports@.len() && i != at ==> (#[trigger] ports@[i]).0@
            != ports@[at].0@,
    ensures
        exists|row: int|
            0 <= row < details.ports@.len() && (#[trigger] details.ports@[row]).label@
                == ports@[at].0@ && details.ports@[row].value@ == bindings_text(ports@[at].1),
        forall|i: int, j: int|
            0 <= i < j < details.ports@.len() ==> text_less(
                (#[trigger] details.ports@[i]).label@,
                (#[trigger] details.ports@[j]).label@,
            ),
{
    short_paths(object@, "NetworkSettings"@, "Ports"@, "Ports"@);
    members_are_found(object@, "NetworkSettings"@, JsonValue::Object(network));
    members_are_found(network@, "Ports"@, JsonValue::Object(ports));
    ports_stand_in_order(ports@);
    let shown = port_rows(ports@);
    assert(has_label(shown, ports@[at].0@));
    let row = choose|k: int| 0 <= k < shown.len() && (#[trigger] shown[k]).0 == ports@[at].0@;
    assert(details@.ports == shown);
    assert(shown.len() == details.ports@.len());
    assert(tells_of(ports@, shown[row]));
    let i = choose|i: int|
        0 <= i < ports@.len() && shown[row].0 == (#[trigger] ports@[i]).0@ && shown[row].1
            == bindings_text(ports@[i].1);
    assert(i == at);
    assert(shown[row] == details.ports@[row]@);
    assert(details.ports@[row].label@ == ports@[at].0@);
    assert forall|i: int, j: int| 0 <= i < j < details.ports@.len() implies text_less(
        (#[trigger] details.ports@[i]).label@,
        (#[trigger] details.ports@[j]).label@,
    ) by {
        assert(shown[i] == details.ports@[i]@ && shown[j] == details.ports@[j]@);
    }
}

/// An inspection that is no object gives no rows.
pub proof fn other_inspections_give_nothing(
    summary: ContainerRecord,
    value: JsonValue,
    details: ContainerDetails,
)
    requires
        call_ensures(ContainerDetails::from_inspect_value, (&summary, value), details),
        !(value is Object),
    ensures
        details.overview@.len() == 0 && details.env@.len() == 0 && details.ports@.len() == 0
            && details.mounts@.len() == 0 && details.health@.len() == 0,
{
    assert(details@.overview.len() == details.overview@.len());
    assert(details@.env.len() == details.env@.len());
    assert(details@.ports.len() == details.ports@.len());
    assert(details@.mounts.len() == details.mounts@.len());
    assert(details@.health.len() == details.health@.len());
}

// ---------------------------------------------------------------------------------------------
// Lines with timestamps
// ---------------------------------------------------------------------------------------------

/// The first white space of a text is where it stands.
proof fn first_blank_is_first(before: Seq<char>, blank: char, behind: Seq<char>)
    requires
        forall|i: int| 0 <= i < before.len() ==> !white_space(#[trigger] before[i]),
        white_space(blank),
    ensures
        first_blank(before + seq![blank] + behind) == before.len(),
    decreases before.len(),
{
    let whole = before + seq![blank] + behind;
    if before.len() == 0 {
        assert(whole[0] == blank);
    } else {
        assert(whole[0] == before[0]);
        assert(whole.skip(1) =~= before.skip(1) + seq![blank] + behind);
        first_blank_is_first(before.skip(1), blank, behind);
    }
}

/// A line that begins with a date, a `T` and a time, and goes on behind white space, is read as
/// that timestamp and the message behind it; line feeds at its end are taken off first.
pub proof fn timestamps_are_taken_off(
    stream: &str,
    raw: &str,
    timestamp: Seq<char>,
    blank: char,
    message: Seq<char>,
    entry: LogEntry,
)
    requires
        call_ensures(LogEntry::parse, (stream, raw), entry),
        without_feeds(raw@) == timestamp + seq![blank] + message,
        white_space(blank),
        timestamp.len() >= 12,
        forall|i: int| 0 <= i < timestamp.len() ==> !white_space(#[trigger] timestamp[i]),
        forall|i: int|
            (0 <= i < 4 || 5 <= i < 7 || 8 <= i < 10) ==> '0' <= #[trigger] timestamp[i] <= '9',
        timestamp[4] == '-' && timestamp[7] == '-' && timestamp[10] == 'T',
        forall|i: int| 0 <= i < message.len() ==> #[trigger] message[i] != '\n',
    ensures
        entry.stream@ == stream@,
        entry@.timestamp == Some(timestamp),
        entry.message@ == message,
        entry.plain_message@ == stripped(message),
{
    let line = without_feeds(raw@);
    first_blank_is_first(timestamp, blank, message);
    let end = timestamp.len() as int;
    assert(line[4] == timestamp[4] && line[7] == timestamp[7] && line[10] == timestamp[10]);
    assert forall|i: int| end < i < line.len() implies line[i] != '\n' by {
        assert(line[i] == message[i - end - 1]);
    }
    assert(stamp_shape(line));
    assert forall|i: int| date_digit(i) && i < line.len() implies is_digit(#[trigger] line[i]) by {
        assert(line[i] == timestamp[i]);
    }
    assert(line.take(end) =~= timestamp);
    assert(line.skip(end + 1) =~= message);
}

/// A line that does not begin so is all message.
pub proof fn other_lines_have_no_timestamp(stream: &str, raw: &str, entry: LogEntry)
    requires
        call_ensures(LogEntry::parse, (stream, raw), entry),
        without_feeds(raw@).len() < 12 || without_feeds(raw@)[4] != '-' || without_feeds(raw@)[7]
            != '-' || without_feeds(raw@)[10] != 'T',
    ensures
        entry.stream@ == stream@,
        entry.timestamp is None,
        entry.message@ == without_feeds(raw@),
        entry.plain_message@ == stripped(without_feeds(raw@)),
{
}


/// A member of another kind than the one that is read counts as missing.
pub proof fn other_kinds_count_as_missing(
    object: Members,
    value: JsonValue,
    result: Result<ContainerRecord, SummaryError>,
)
    requires
        call_ensures(
            ContainerRecord::from_summary_value,
            (JsonValue::Object(object),),
            result,
        ),
        !(value is Text) && !(value is Number) && !(value is Array) && !(value is Object),
    ensures
        has_member(object@, "State"@, value) ==> (result matches Ok(record) && record.state@
            == "unknown"@),
        has_member(object@, "Status"@, value) ==> (result matches Ok(record) && record.status@
            == "unknown"@),
        has_member(object@, "Image"@, value) ==> (result matches Ok(record) && record.image@
            == "<unknown>"@),
        has_member(object@, "Id"@, value) ==> (result matches Ok(record) && record.id@
            == "unknown"@),
        has_member(object@, "Created"@, value) ==> (result matches Ok(record)
            && record.created is None),
        has_member(object@, "Names"@, value) ==> (result matches Ok(record) && record.name@
            == record.short_id@),
        has_member(object@, "Ports"@, value) ==> (result matches Ok(record) && record.ports@.len()
            == 0),
        has_member(object@, "Labels"@, value) ==> (result matches Ok(record)
            && record.project is None && record.service is None),
{
    members_are_found(object@, "State"@, value);
    members_are_found(object@, "Status"@, value);
    members_are_found(object@, "Image"@, value);
    members_are_found(object@, "Id"@, value);
    members_are_found(object@, "Created"@, value);
    members_are_found(object@, "Names"@, value);
    members_are_found(object@, "Ports"@, value);
    members_are_found(object@, "Labels"@, value);
    let record = result->Ok_0;
    assert(record@.ports.len() == record.ports@.len());
    assert(texts_among(Seq::empty()) =~= Seq::<Seq<char>>::empty());
    assert(objects_among(Seq::empty()) =~= Seq::<Members>::empty());
}

} // verus!
