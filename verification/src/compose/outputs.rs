//! What container runtimes print, read back.
use vstd::prelude::*;
use vstd::string::*;
use crate::compose::error::{ComposeError, ErrorView, Result};
use crate::compose::json::{
    default_number, default_pairs, default_text, default_texts, either, field, is_record,
    json_entries, json_items, json_of, json_parsed, named, number_or_default, one_name, open,
    pairs_or_default, parse, record, required_text, same_pairs, slot, slot_view, text_or_default,
    text_value, texts_or_default, two_names, Json, JsonView, Names, Slot, SlotView,
};
use crate::compose::maps::{from_pairs, OrderedMap};
use crate::compose::types::{ContainerInfo, ContainerInfoView, ImageInfo, ImageInfoView};
use crate::text::{
    cut, ends_with, lemma_texts_push, lines, lines_of, pieces, same, split, split_once, starts_with, texts,
};

verus! {

broadcast use lemma_texts_push;

/// The views of a list of containers.
pub open spec fn info_views(v: Seq<ContainerInfo>) -> Seq<ContainerInfoView> {
    v.map_values(|i: ContainerInfo| i@)
}

/// The views of a list of images.
pub open spec fn image_views(v: Seq<ImageInfo>) -> Seq<ImageInfoView> {
    v.map_values(|i: ImageInfo| i@)
}

/// What values decode to, where all of them decode.
pub open spec fn all_decoded<T>(
    items: Seq<JsonView>,
    decode: spec_fn(JsonView) -> Option<T>,
) -> Option<Seq<T>>
    decreases items.len(),
{
    if items.len() == 0 {
        Some(Seq::empty())
    } else {
        match (all_decoded(items.drop_last(), decode), decode(items.last())) {
            (Some(ts), Some(t)) => Some(ts.push(t)),
            _ => None,
        }
    }
}

/// One value that does not decode spoils the list.
pub proof fn lemma_decoded_prefix<T>(
    items: Seq<JsonView>,
    decode: spec_fn(JsonView) -> Option<T>,
    k: int,
)
    requires
        0 <= k <= items.len(),
        all_decoded(items.take(k), decode) is None,
    ensures
        all_decoded(items, decode) is None,
    decreases items.len() - k,
{
    if k == items.len() {
        assert(items.take(k) =~= items);
    } else {
        assert(items.take(k + 1).drop_last() =~= items.take(k));
        lemma_decoded_prefix(items, decode, k + 1);
    }
}

// ---- lists in the Docker form ----

/// Whether a status text tells of a container that is up and not paused.
pub open spec fn is_up(s: Seq<char>) -> bool {
    (s == "Up"@ || "Up "@.is_prefix_of(s)) && !"(Paused)"@.is_suffix_of(s)
}

/// The state that a status text tells of. "Up" for some time is running. Any other
/// text, that of a paused container included, stands for itself.
pub open spec fn status_word(s: Seq<char>) -> Seq<char> {
    if is_up(s) {
        "running"@
    } else {
        s
    }
}

fn status_of(s: String) -> (r: String)
    ensures
        r@ == status_word(s@),
{
    let up: bool = same(s.as_str(), "Up") || starts_with(s.as_str(), "Up ");
    if up && !ends_with(s.as_str(), "(Paused)") {
        "running".to_owned()
    } else {
        s
    }
}

/// The text of a JSON string, or nothing.
pub open spec fn string_or_empty(v: JsonView) -> Seq<char> {
    match v {
        JsonView::String(s) => s,
        _ => Seq::empty(),
    }
}

/// The `key=value` parts among some texts.
pub open spec fn assignments(parts: Seq<Seq<char>>) -> Seq<(Seq<char>, Seq<char>)>
    decreases parts.len(),
{
    if parts.len() == 0 {
        Seq::empty()
    } else {
        let before = assignments(parts.drop_last());
        match cut(parts.last(), '=') {
            Some(p) => before.push(p),
            None => before,
        }
    }
}

/// The labels of a container: an object, or assignments between commas.
pub open spec fn label_pairs(v: JsonView) -> Seq<(Seq<char>, Seq<char>)> {
    match v {
        JsonView::Object(entries) => from_pairs(
            entries.map_values(|e: (Seq<char>, JsonView)| (e.0, string_or_empty(e.1))),
        ),
        JsonView::String(s) => from_pairs(assignments(pieces(s, ','))),
        _ => Seq::empty(),
    }
}

/// The labels of a container, where they are given.
pub open spec fn labels_or_default(s: SlotView) -> Option<Seq<(Seq<char>, Seq<char>)>> {
    match s {
        SlotView::Absent => Some(Seq::empty()),
        SlotView::Value(v) => Some(label_pairs(v)),
        SlotView::Clash => None,
    }
}

/// Puts the `key=value` parts among some texts into a map.
pub fn assign_all(parts: &Vec<String>) -> (r: OrderedMap<String>)
    ensures
        r.pairs() == from_pairs(assignments(texts(parts@))),
{
    let ghost all = texts(parts@);
    let mut out: OrderedMap<String> = OrderedMap::new();
    let mut i: usize = 0;
    assert(all.take(0) =~= Seq::empty());
    assert(out.pairs() =~= Seq::empty());
    while i < parts.len()
        invariant
            i <= parts@.len(),
            all == texts(parts@),
            out.pairs() == from_pairs(assignments(all.take(i as int))),
        decreases parts@.len() - i,
    {
        proof {
            assert(all.take(i + 1).drop_last() =~= all.take(i as int));
            assert(all.take(i + 1).last() == parts@[i as int]@);
        }
        if let Some((key, value)) = split_once(parts[i].as_str(), '=') {
            proof {
                let before = assignments(all.take(i as int));
                assert(before.push((key@, value@)).drop_last() =~= before);
            }
            out.put(key, value);
        }
        i += 1;
    }
    assert(all.take(i as int) =~= all);
    out
}

fn read_labels(s: Slot) -> (r: Option<OrderedMap<String>>)
    ensures
        same_pairs(r, labels_or_default(slot_view(s))),
{
    let mut out: OrderedMap<String> = OrderedMap::new();
    assert(out.pairs() =~= Seq::empty());
    match s {
        Slot::Absent => Some(out),
        Slot::Clash => None,
        Slot::Value(v) => match open(v) {
            Json::Object(entries) => {
                let ghost all = json_entries(entries@).map_values(
                    |e: (Seq<char>, JsonView)| (e.0, string_or_empty(e.1)),
                );
                let mut i: usize = 0;
                assert(all.take(0) =~= Seq::empty());
                while i < entries.len()
                    invariant
                        i <= entries@.len(),
                        all == json_entries(entries@).map_values(
                            |e: (Seq<char>, JsonView)| (e.0, string_or_empty(e.1)),
                        ),
                        out.pairs() == from_pairs(all.take(i as int)),
                    decreases entries@.len() - i,
                {
                    assert(all.take(i + 1).drop_last() =~= all.take(i as int));
                    assert(all.take(i + 1).last() == all[i as int]);
                    let (key, value) = entries[i];
                    let text = match open(value) {
                        Json::String(t) => t.clone(),
                        _ => String::new(),
                    };
                    out.put(key.clone(), text);
                    i += 1;
                }
                assert(all.take(i as int) =~= all);
                Some(out)
            },
            Json::String(s) => Some(assign_all(&split(s.as_str(), ','))),
            _ => Some(out),
        },
    }
}

/// A container as one entry of a list in the Docker form describes it.
pub open spec fn docker_list_info(v: JsonView) -> Option<ContainerInfoView> {
    if !is_record(v, 7) {
        None
    } else {
        match (
            text_or_default(field(v, 0, either("ID", "Id"))),
            texts_or_default(field(v, 1, named("Names"))),
            text_or_default(field(v, 2, named("Image"))),
            text_or_default(field(v, 3, either("Status", "State"))),
            texts_or_default(field(v, 4, named("Ports"))),
            labels_or_default(field(v, 5, named("Labels"))),
            text_or_default(field(v, 6, either("Created", "CreatedAt"))),
        ) {
            (
                Some(id),
                Some(names),
                Some(image),
                Some(status),
                Some(ports),
                Some(labels),
                Some(created),
            ) => Some(
                ContainerInfoView {
                    id,
                    name: if names.len() > 0 {
                        names[0]
                    } else {
                        Seq::empty()
                    },
                    image,
                    status: status_word(status),
                    ports,
                    labels,
                    created,
                    ip_address: Seq::empty(),
                },
            ),
            _ => None,
        }
    }
}

/// Whether an optional container is what was read.
pub open spec fn same_info(r: Option<ContainerInfo>, v: Option<ContainerInfoView>) -> bool {
    match r {
        Some(i) => v == Some(i@),
        None => v is None,
    }
}

/// Reads an entry of a list of containers.
pub fn read_docker_entry(v: &serde_json::Value) -> (r: Option<ContainerInfo>)
    ensures
        same_info(r, docker_list_info(json_of(*v))),
{
    let j = open(v);
    if !record(&j, 7) {
        return None;
    }
    let id = default_text(slot(&j, 0, two_names("ID", "Id")));
    let names = default_texts(slot(&j, 1, one_name("Names")));
    let image = default_text(slot(&j, 2, one_name("Image")));
    let status = default_text(slot(&j, 3, two_names("Status", "State")));
    let ports = default_texts(slot(&j, 4, one_name("Ports")));
    let labels = read_labels(slot(&j, 5, one_name("Labels")));
    let created = default_text(slot(&j, 6, two_names("Created", "CreatedAt")));
    match (id, names, image, status, ports, labels, created) {
        (
            Some(id),
            Some(names),
            Some(image),
            Some(status),
            Some(ports),
            Some(labels),
            Some(created),
        ) => {
            assert(texts(names@).len() == names@.len());
            let name = if names.len() > 0 {
                names[0].clone()
            } else {
                String::new()
            };
            Some(
                ContainerInfo {
                    id,
                    name,
                    image,
                    status: status_of(status),
                    ports,
                    labels,
                    created,
                    ip_address: String::new(),
                },
            )
        },
        _ => None,
    }
}

/// The container that a line describes, if it does.
pub open spec fn line_info(line: Seq<char>) -> Option<ContainerInfoView> {
    match json_parsed(line) {
        Ok(v) => docker_list_info(v),
        Err(_) => None,
    }
}

/// The containers that lines describe; other lines are passed over.
pub open spec fn listed(ls: Seq<Seq<char>>) -> Seq<ContainerInfoView>
    decreases ls.len(),
{
    if ls.len() == 0 {
        Seq::empty()
    } else {
        let before = listed(ls.drop_last());
        match line_info(ls.last()) {
            Some(i) => before.push(i),
            None => before,
        }
    }
}

/// Reads a list of containers in the Docker form, one object to a line.
pub fn docker_list(stdout: &str) -> (r: Vec<ContainerInfo>)
    ensures
        info_views(r@) == listed(lines_of(stdout@)),
{
    let ls = lines(stdout);
    let ghost all = texts(ls@);
    let mut out: Vec<ContainerInfo> = Vec::new();
    let mut i: usize = 0;
    assert(all.take(0) =~= Seq::empty());
    assert(info_views(out@) =~= Seq::empty());
    while i < ls.len()
        invariant
            i <= ls@.len(),
            all == texts(ls@),
            info_views(out@) == listed(all.take(i as int)),
        decreases ls@.len() - i,
    {
        proof {
            assert(all.take(i + 1).drop_last() =~= all.take(i as int));
            assert(all.take(i + 1).last() == ls@[i as int]@);
        }
        if let Ok(v) = parse(ls[i].as_str()) {
            if let Some(info) = read_docker_entry(&v) {
                let ghost before = out@;
                out.push(info);
                assert(info_views(out@) =~= info_views(before).push(info@));
            }
        }
        i += 1;
    }
    assert(all.take(i as int) =~= all);
    out
}

// ---- images in the Docker form ----

/// The containers that an array in the Docker form describes: all of its items,
/// or none where one of them is something else.
pub open spec fn listed_in_array(text: Seq<char>) -> Seq<ContainerInfoView> {
    match json_parsed(text) {
        Ok(JsonView::Array(items)) => match all_decoded(
            items,
            |v: JsonView| docker_list_info(v),
        ) {
            Some(infos) => infos,
            None => Seq::empty(),
        },
        _ => Seq::empty(),
    }
}

/// Reads the entries of an array of containers.
pub fn read_docker_entries(items: &Vec<serde_json::Value>) -> (r: Option<Vec<ContainerInfo>>)
    ensures
        match r {
            Some(l) => all_decoded(json_items(items@), |v: JsonView| docker_list_info(v)) == Some(
                info_views(l@),
            ),
            None => all_decoded(json_items(items@), |v: JsonView| docker_list_info(v)) is None,
        },
{
    let ghost all = json_items(items@);
    let ghost decode = |v: JsonView| docker_list_info(v);
    let mut out: Vec<ContainerInfo> = Vec::new();
    let mut i: usize = 0;
    assert(info_views(out@) =~= Seq::empty());
    assert(all.take(0) =~= Seq::empty());
    while i < items.len()
        invariant
            i <= items@.len(),
            all == json_items(items@),
            decode == (|v: JsonView| docker_list_info(v)),
            all_decoded(all.take(i as int), decode) == Some(info_views(out@)),
        decreases items@.len() - i,
    {
        proof {
            assert(all.take(i + 1).drop_last() =~= all.take(i as int));
            assert(all.take(i + 1).last() == all[i as int]);
        }
        match read_docker_entry(&items[i]) {
            Some(info) => {
                let ghost before = out@;
                out.push(info);
                assert(info_views(out@) =~= info_views(before).push(info@));
            },
            None => {
                proof {
                    lemma_decoded_prefix(all, decode, i + 1);
                }
                return None;
            },
        }
        i += 1;
    }
    assert(all.take(i as int) =~= all);
    Some(out)
}

/// Reads an array of containers in the Docker form.
pub fn docker_array(text: &str) -> (r: Vec<ContainerInfo>)
    ensures
        info_views(r@) == listed_in_array(text@),
{
    if let Ok(v) = parse(text) {
        if let Json::Array(items) = open(&v) {
            if let Some(infos) = read_docker_entries(items) {
                return infos;
            }
        }
    }
    let none: Vec<ContainerInfo> = Vec::new();
    assert(info_views(none@) =~= Seq::empty());
    none
}

/// An image as one line in the Docker form describes it.
pub open spec fn docker_image_info(v: JsonView) -> Option<ImageInfoView> {
    if !is_record(v, 5) {
        None
    } else {
        match (
            text_or_default(field(v, 0, either("ID", "Id"))),
            text_or_default(field(v, 1, either("Repositories", "Repository"))),
            text_or_default(field(v, 2, named("Tag"))),
            number_or_default(field(v, 3, named("Size"))),
            text_or_default(field(v, 4, either("Created", "CreatedAt"))),
        ) {
            (Some(id), Some(repository), Some(tag), Some(size), Some(created)) => Some(
                ImageInfoView { id, repository, tag, size, created },
            ),
            _ => None,
        }
    }
}

/// Reads an entry of a list of images.
pub fn read_docker_image(v: &serde_json::Value) -> (r: Option<ImageInfo>)
    ensures
        match r {
            Some(i) => docker_image_info(json_of(*v)) == Some(i@),
            None => docker_image_info(json_of(*v)) is None,
        },
{
    let j = open(v);
    if !record(&j, 5) {
        return None;
    }
    let id = default_text(slot(&j, 0, two_names("ID", "Id")));
    let repository = default_text(slot(&j, 1, two_names("Repositories", "Repository")));
    let tag = default_text(slot(&j, 2, one_name("Tag")));
    let size = default_number(slot(&j, 3, one_name("Size")));
    let created = default_text(slot(&j, 4, two_names("Created", "CreatedAt")));
    match (id, repository, tag, size, created) {
        (Some(id), Some(repository), Some(tag), Some(size), Some(created)) => Some(
            ImageInfo { id, repository, tag, size, created },
        ),
        _ => None,
    }
}

/// The image that a line describes, if it does.
pub open spec fn line_image(line: Seq<char>) -> Option<ImageInfoView> {
    match json_parsed(line) {
        Ok(v) => docker_image_info(v),
        Err(_) => None,
    }
}

/// The images that lines describe; other lines are passed over.
pub open spec fn listed_images(ls: Seq<Seq<char>>) -> Seq<ImageInfoView>
    decreases ls.len(),
{
    if ls.len() == 0 {
        Seq::empty()
    } else {
        let before = listed_images(ls.drop_last());
        match line_image(ls.last()) {
            Some(i) => before.push(i),
            None => before,
        }
    }
}

/// Reads a list of images in the Docker form, one object to a line.
pub fn docker_images(stdout: &str) -> (r: Vec<ImageInfo>)
    ensures
        image_views(r@) == listed_images(lines_of(stdout@)),
{
    let ls = lines(stdout);
    let ghost all = texts(ls@);
    let mut out: Vec<ImageInfo> = Vec::new();
    let mut i: usize = 0;
    assert(all.take(0) =~= Seq::empty());
    assert(image_views(out@) =~= Seq::empty());
    while i < ls.len()
        invariant
            i <= ls@.len(),
            all == texts(ls@),
            image_views(out@) == listed_images(all.take(i as int)),
        decreases ls@.len() - i,
    {
        proof {
            assert(all.take(i + 1).drop_last() =~= all.take(i as int));
            assert(all.take(i + 1).last() == ls@[i as int]@);
        }
        if let Ok(v) = parse(ls[i].as_str()) {
            if let Some(image) = read_docker_image(&v) {
                let ghost before = out@;
                out.push(image);
                assert(image_views(out@) =~= image_views(before).push(image@));
            }
        }
        i += 1;
    }
    assert(all.take(i as int) =~= all);
    out
}

// ---- inspection in the Docker form ----

/// The address of a network attachment.
pub open spec fn network_address(v: JsonView) -> Option<Seq<char>> {
    if is_record(v, 1) {
        text_or_default(field(v, 0, named("IPAddress")))
    } else {
        None
    }
}

/// The values of an object.
pub open spec fn values_of(entries: Seq<(Seq<char>, JsonView)>) -> Seq<JsonView> {
    entries.map_values(|e: (Seq<char>, JsonView)| e.1)
}

/// The addresses of the networks of a container.
pub open spec fn addresses_or_default(s: SlotView) -> Option<Seq<Seq<char>>> {
    match s {
        SlotView::Absent => Some(Seq::empty()),
        SlotView::Value(JsonView::Object(entries)) => all_decoded(
            values_of(entries),
            |v: JsonView| network_address(v),
        ),
        _ => None,
    }
}

/// The address of a container: its own, or else that of its first network.
pub open spec fn settings_address(v: JsonView) -> Option<Seq<char>> {
    if !is_record(v, 2) {
        None
    } else {
        match (
            text_or_default(field(v, 0, named("IPAddress"))),
            addresses_or_default(field(v, 1, named("Networks"))),
        ) {
            (Some(own), Some(networks)) => Some(
                if own.len() > 0 {
                    own
                } else if networks.len() > 0 {
                    networks[0]
                } else {
                    Seq::empty()
                },
            ),
            _ => None,
        }
    }
}

/// The address of a container whose network settings may be missing.
pub open spec fn address_or_default(s: SlotView) -> Option<Seq<char>> {
    match s {
        SlotView::Absent => Some(Seq::empty()),
        SlotView::Value(JsonView::Null) => Some(Seq::empty()),
        SlotView::Value(v) => settings_address(v),
        SlotView::Clash => None,
    }
}

/// The image and labels of a container.
pub open spec fn docker_config(s: SlotView) -> Option<(Seq<char>, Seq<(Seq<char>, Seq<char>)>)> {
    match s {
        SlotView::Value(v) => if !is_record(v, 2) {
            None
        } else {
            match (
                text_value(field(v, 0, named("Image"))),
                pairs_or_default(field(v, 1, named("Labels"))),
            ) {
                (Some(image), Some(labels)) => Some((image, labels)),
                _ => None,
            }
        },
        _ => None,
    }
}

/// The state of a container.
pub open spec fn docker_state(s: SlotView) -> Option<Seq<char>> {
    match s {
        SlotView::Value(v) => if is_record(v, 1) {
            text_value(field(v, 0, named("Status")))
        } else {
            None
        },
        _ => None,
    }
}

/// A container as an inspection in the Docker form describes it.
pub open spec fn docker_inspect_info(v: JsonView) -> Option<ContainerInfoView> {
    if !is_record(v, 6) {
        None
    } else {
        match (
            text_value(field(v, 0, named("Id"))),
            text_value(field(v, 1, named("Name"))),
            docker_config(field(v, 2, named("Config"))),
            docker_state(field(v, 3, named("State"))),
            text_value(field(v, 4, named("Created"))),
            address_or_default(field(v, 5, named("NetworkSettings"))),
        ) {
            (
                Some(id),
                Some(name),
                Some(config),
                Some(status),
                Some(created),
                Some(ip_address),
            ) => Some(
                ContainerInfoView {
                    id,
                    name,
                    image: config.0,
                    status,
                    ports: Seq::empty(),
                    labels: config.1,
                    created,
                    ip_address,
                },
            ),
            _ => None,
        }
    }
}

fn read_addresses(s: Slot) -> (r: Option<Vec<String>>)
    ensures
        match r {
            Some(v) => addresses_or_default(slot_view(s)) == Some(texts(v@)),
            None => addresses_or_default(slot_view(s)) is None,
        },
{
    let mut out: Vec<String> = Vec::new();
    assert(texts(out@) =~= Seq::<Seq<char>>::empty());
    match s {
        Slot::Absent => Some(out),
        Slot::Clash => None,
        Slot::Value(v) => match open(v) {
            Json::Object(entries) => {
                let ghost all = values_of(json_entries(entries@));
                let ghost decode = |v: JsonView| network_address(v);
                let mut i: usize = 0;
                assert(all.take(0) =~= Seq::empty());
                while i < entries.len()
                    invariant
                        i <= entries@.len(),
                        all == values_of(json_entries(entries@)),
                        decode == (|v: JsonView| network_address(v)),
                        all_decoded(all.take(i as int), decode) == Some(texts(out@)),
                        addresses_or_default(slot_view(s)) == all_decoded(all, decode),
                    decreases entries@.len() - i,
                {
                    proof {
                        assert(all.take(i + 1).drop_last() =~= all.take(i as int));
                        assert(all.take(i + 1).last() == all[i as int]);
                    }
                    let (_key, value) = entries[i];
                    let j = open(value);
                    let address = if record(&j, 1) {
                        default_text(slot(&j, 0, one_name("IPAddress")))
                    } else {
                        None
                    };
                    match address {
                        Some(a) => out.push(a),
                        None => {
                            proof {
                                lemma_decoded_prefix(all, decode, i + 1);
                            }
                            return None;
                        },
                    }
                    i += 1;
                }
                assert(all.take(i as int) =~= all);
                Some(out)
            },
            _ => None,
        },
    }
}

fn read_settings_address(v: &serde_json::Value) -> (r: Option<String>)
    ensures
        match r {
            Some(a) => settings_address(json_of(*v)) == Some(a@),
            None => settings_address(json_of(*v)) is None,
        },
{
    let j = open(v);
    if !record(&j, 2) {
        return None;
    }
    let own = default_text(slot(&j, 0, one_name("IPAddress")));
    let networks = read_addresses(slot(&j, 1, one_name("Networks")));
    match (own, networks) {
        (Some(own), Some(networks)) => {
            assert(texts(networks@).len() == networks@.len());
            if !own.as_str().is_empty() {
                Some(own)
            } else if networks.len() > 0 {
                assert(texts(networks@)[0] == networks@[0]@);
                Some(networks[0].clone())
            } else {
                Some(String::new())
            }
        },
        _ => None,
    }
}

fn read_address(s: Slot) -> (r: Option<String>)
    ensures
        match r {
            Some(a) => address_or_default(slot_view(s)) == Some(a@),
            None => address_or_default(slot_view(s)) is None,
        },
{
    match s {
        Slot::Absent => Some(String::new()),
        Slot::Clash => None,
        Slot::Value(v) => match open(v) {
            Json::Null => Some(String::new()),
            _ => read_settings_address(v),
        },
    }
}

fn read_config(s: Slot) -> (r: Option<(String, OrderedMap<String>)>)
    ensures
        match r {
            Some(c) => docker_config(slot_view(s)) == Some((c.0@, c.1.pairs())),
            None => docker_config(slot_view(s)) is None,
        },
{
    match s {
        Slot::Value(v) => {
            let j = open(v);
            if !record(&j, 2) {
                return None;
            }
            let image = required_text(slot(&j, 0, one_name("Image")));
            let labels = default_pairs(slot(&j, 1, one_name("Labels")));
            match (image, labels) {
                (Some(image), Some(labels)) => Some((image, labels)),
                _ => None,
            }
        },
        _ => None,
    }
}

fn read_state(s: Slot) -> (r: Option<String>)
    ensures
        match r {
            Some(a) => docker_state(slot_view(s)) == Some(a@),
            None => docker_state(slot_view(s)) is None,
        },
{
    match s {
        Slot::Value(v) => {
            let j = open(v);
            if record(&j, 1) {
                required_text(slot(&j, 0, one_name("Status")))
            } else {
                None
            }
        },
        _ => None,
    }
}

/// Reads one container of an inspection.
pub fn read_docker_inspection(v: &serde_json::Value) -> (r: Option<ContainerInfo>)
    ensures
        same_info(r, docker_inspect_info(json_of(*v))),
{
    let j = open(v);
    if !record(&j, 6) {
        return None;
    }
    let id = required_text(slot(&j, 0, one_name("Id")));
    let name = required_text(slot(&j, 1, one_name("Name")));
    let config = read_config(slot(&j, 2, one_name("Config")));
    let status = read_state(slot(&j, 3, one_name("State")));
    let created = required_text(slot(&j, 4, one_name("Created")));
    let address = read_address(slot(&j, 5, one_name("NetworkSettings")));
    match (id, name, config, status, created, address) {
        (
            Some(id),
            Some(name),
            Some((image, labels)),
            Some(status),
            Some(created),
            Some(ip_address),
        ) => {
            let ports: Vec<String> = Vec::new();
            assert(texts(ports@) =~= Seq::<Seq<char>>::empty());
            Some(ContainerInfo { id, name, image, status, ports, labels, created, ip_address })
        },
        _ => None,
    }
}

/// The containers of an inspection in the Docker form, which is a list.
pub open spec fn docker_inspections(v: JsonView) -> Option<Seq<ContainerInfoView>> {
    match v {
        JsonView::Array(items) => all_decoded(items, |v: JsonView| docker_inspect_info(v)),
        _ => None,
    }
}

/// Reads all containers of an inspection.
pub fn read_docker_inspections(v: &serde_json::Value) -> (r: Option<Vec<ContainerInfo>>)
    ensures
        match r {
            Some(l) => docker_inspections(json_of(*v)) == Some(info_views(l@)),
            None => docker_inspections(json_of(*v)) is None,
        },
{
    let mut out: Vec<ContainerInfo> = Vec::new();
    assert(info_views(out@) =~= Seq::empty());
    match open(v) {
        Json::Array(items) => {
            let ghost all = json_items(items@);
            let ghost decode = |v: JsonView| docker_inspect_info(v);
            let mut i: usize = 0;
            assert(all.take(0) =~= Seq::empty());
            while i < items.len()
                invariant
                    i <= items@.len(),
                    all == json_items(items@),
                    decode == (|v: JsonView| docker_inspect_info(v)),
                    all_decoded(all.take(i as int), decode) == Some(info_views(out@)),
                    docker_inspections(json_of(*v)) == all_decoded(all, decode),
                decreases items@.len() - i,
            {
                proof {
                    assert(all.take(i + 1).drop_last() =~= all.take(i as int));
                    assert(all.take(i + 1).last() == all[i as int]);
                }
                match read_docker_inspection(&items[i]) {
                    Some(info) => {
                        let ghost before = out@;
                        out.push(info);
                        assert(info_views(out@) =~= info_views(before).push(info@));
                    },
                    None => {
                        proof {
                            lemma_decoded_prefix(all, decode, i + 1);
                        }
                        return None;
                    },
                }
                i += 1;
            }
            assert(all.take(i as int) =~= all);
            Some(out)
        },
        _ => None,
    }
}

/// What an inspection in the Docker form says: the first container, or that the
/// text is no JSON, has another shape, or lists nothing.
pub open spec fn docker_inspected(stdout: Seq<char>) -> std::result::Result<
    ContainerInfoView,
    ErrorView,
> {
    match json_parsed(stdout) {
        Err(e) => Err(ErrorView::JsonError(e)),
        Ok(v) => match docker_inspections(v) {
            None => Err(ErrorView::JsonError("unexpected shape of inspect output"@)),
            Some(infos) => if infos.len() > 0 {
                Ok(infos[0])
            } else {
                Err(ErrorView::NotFound("Inspect output empty"@))
            },
        },
    }
}

/// Whether a result is what an inspection says.
pub open spec fn same_inspection(
    r: Result<ContainerInfo>,
    v: std::result::Result<ContainerInfoView, ErrorView>,
) -> bool {
    match r {
        Ok(i) => v == Ok::<ContainerInfoView, ErrorView>(i@),
        Err(e) => v == Err::<ContainerInfoView, ErrorView>(e@),
    }
}

/// Reads an inspection in the Docker form.
pub fn docker_inspect(stdout: &str) -> (r: Result<ContainerInfo>)
    ensures
        same_inspection(r, docker_inspected(stdout@)),
{
    match parse(stdout) {
        Err(e) => Err(ComposeError::JsonError(e)),
        Ok(v) => match read_docker_inspections(&v) {
            None => Err(ComposeError::JsonError("unexpected shape of inspect output".to_owned())),
            Some(infos) => {
                assert(info_views(infos@).len() == infos@.len());
                let mut rest = infos;
                if rest.len() > 0 {
                    assert(info_views(infos@)[0] == infos@[0]@);
                    Ok(rest.remove(0))
                } else {
                    Err(ComposeError::NotFound("Inspect output empty".to_owned()))
                }
            },
        },
    }
}

} // verus!
