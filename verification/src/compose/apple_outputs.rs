//! What Apple's container runtime prints, read back.
use vstd::prelude::*;
use vstd::string::*;
use crate::compose::error::{ComposeError, ErrorView, Result};
use crate::compose::json::{
    default_number, default_pairs, default_text, either, field, is_record, json_items, json_of,
    json_parsed, named, number_or_default, one_name, open, pairs_or_default, parse, record, slot,
    slot_view, text_or_default, two_names, Json, JsonView, Names, Slot, SlotView,
};
use crate::compose::maps::OrderedMap;
use crate::compose::outputs::{
    all_decoded, docker_array, docker_images, docker_inspect, docker_inspected, docker_list,
    image_views, info_views, lemma_decoded_prefix, listed, listed_images, listed_in_array,
    same_inspection,
};
use crate::compose::types::{ContainerInfo, ContainerInfoView, ImageInfo, ImageInfoView};
use crate::text::{
    chars_of, lemma_texts_push, lines_of, rfind, same, span, texts, trim, trimmed,
};

verus! {

broadcast use lemma_texts_push;

// ---- containers ----

/// A container as the runtime configured it.
pub struct AppleListConfig {
    pub id: String,
    pub image: String,
    pub hostname: String,
    pub labels: OrderedMap<String>,
}

/// One container of a list or an inspection.
pub struct AppleListEntry {
    pub configuration: AppleListConfig,
    pub status: String,
    pub networks: Vec<String>,
}

/// What an [`AppleListConfig`] says.
pub struct AppleConfigView {
    pub id: Seq<char>,
    pub image: Seq<char>,
    pub hostname: Seq<char>,
    pub labels: Seq<(Seq<char>, Seq<char>)>,
}

/// What an [`AppleListEntry`] says.
pub struct AppleEntryView {
    pub configuration: AppleConfigView,
    pub status: Seq<char>,
    pub networks: Seq<Seq<char>>,
}

impl View for AppleListConfig {
    type V = AppleConfigView;

    open spec fn view(&self) -> AppleConfigView {
        AppleConfigView {
            id: self.id@,
            image: self.image@,
            hostname: self.hostname@,
            labels: self.labels.pairs(),
        }
    }
}

impl View for AppleListEntry {
    type V = AppleEntryView;

    open spec fn view(&self) -> AppleEntryView {
        AppleEntryView {
            configuration: self.configuration@,
            status: self.status@,
            networks: texts(self.networks@),
        }
    }
}

/// The views of a list of entries.
pub open spec fn entry_views(v: Seq<AppleListEntry>) -> Seq<AppleEntryView> {
    v.map_values(|e: AppleListEntry| e@)
}

/// The reference of an image that may be missing.
pub open spec fn reference_or_default(s: SlotView) -> Option<Seq<char>> {
    match s {
        SlotView::Absent => Some(Seq::empty()),
        SlotView::Value(v) => if is_record(v, 1) {
            text_or_default(field(v, 0, named("reference")))
        } else {
            None
        },
        SlotView::Clash => None,
    }
}

/// A configuration that may be missing.
pub open spec fn config_or_default(s: SlotView) -> Option<AppleConfigView> {
    match s {
        SlotView::Absent => Some(
            AppleConfigView {
                id: Seq::empty(),
                image: Seq::empty(),
                hostname: Seq::empty(),
                labels: Seq::empty(),
            },
        ),
        SlotView::Value(v) => if !is_record(v, 4) {
            None
        } else {
            match (
                text_or_default(field(v, 0, either("id", "ID"))),
                reference_or_default(field(v, 1, named("image"))),
                text_or_default(field(v, 2, either("hostname", "name"))),
                pairs_or_default(field(v, 3, named("labels"))),
            ) {
                (Some(id), Some(image), Some(hostname), Some(labels)) => Some(
                    AppleConfigView { id, image, hostname, labels },
                ),
                _ => None,
            }
        },
        SlotView::Clash => None,
    }
}

/// The names of the address of a network.
pub open spec fn address_names() -> Names<'static> {
    Names { a: "address", b: "ip", c: "ipAddress", d: "ip_address" }
}

/// The address of a network.
pub open spec fn apple_address(v: JsonView) -> Option<Seq<char>> {
    if is_record(v, 1) {
        text_or_default(field(v, 0, address_names()))
    } else {
        None
    }
}

/// The addresses of networks that may be missing.
pub open spec fn networks_or_default(s: SlotView) -> Option<Seq<Seq<char>>> {
    match s {
        SlotView::Absent => Some(Seq::empty()),
        SlotView::Value(JsonView::Array(items)) => all_decoded(
            items,
            |v: JsonView| apple_address(v),
        ),
        _ => None,
    }
}

/// One container.
pub open spec fn apple_entry(v: JsonView) -> Option<AppleEntryView> {
    if !is_record(v, 3) {
        None
    } else {
        match (
            config_or_default(field(v, 0, named("configuration"))),
            text_or_default(field(v, 1, named("status"))),
            networks_or_default(field(v, 2, named("networks"))),
        ) {
            (Some(configuration), Some(status), Some(networks)) => Some(
                AppleEntryView { configuration, status, networks },
            ),
            _ => None,
        }
    }
}

/// A list of containers.
pub open spec fn apple_entries(v: JsonView) -> Option<Seq<AppleEntryView>> {
    match v {
        JsonView::Array(items) => all_decoded(items, |v: JsonView| apple_entry(v)),
        _ => None,
    }
}

/// A list of containers in a text.
pub open spec fn apple_entries_in(text: Seq<char>) -> Option<Seq<AppleEntryView>> {
    match json_parsed(text) {
        Ok(v) => apple_entries(v),
        Err(_) => None,
    }
}

fn read_reference(s: Slot) -> (r: Option<String>)
    ensures
        match r {
            Some(t) => reference_or_default(slot_view(s)) == Some(t@),
            None => reference_or_default(slot_view(s)) is None,
        },
{
    match s {
        Slot::Absent => Some(String::new()),
        Slot::Value(v) => {
            let j = open(v);
            if record(&j, 1) {
                default_text(slot(&j, 0, one_name("reference")))
            } else {
                None
            }
        },
        Slot::Clash => None,
    }
}

fn read_config(s: Slot) -> (r: Option<AppleListConfig>)
    ensures
        match r {
            Some(c) => config_or_default(slot_view(s)) == Some(c@),
            None => config_or_default(slot_view(s)) is None,
        },
{
    match s {
        Slot::Absent => {
            let labels: OrderedMap<String> = OrderedMap::new();
            assert(labels.pairs() =~= Seq::empty());
            Some(
                AppleListConfig {
                    id: String::new(),
                    image: String::new(),
                    hostname: String::new(),
                    labels,
                },
            )
        },
        Slot::Value(v) => {
            let j = open(v);
            if !record(&j, 4) {
                return None;
            }
            let id = default_text(slot(&j, 0, two_names("id", "ID")));
            let image = read_reference(slot(&j, 1, one_name("image")));
            let hostname = default_text(slot(&j, 2, two_names("hostname", "name")));
            let labels = default_pairs(slot(&j, 3, one_name("labels")));
            match (id, image, hostname, labels) {
                (Some(id), Some(image), Some(hostname), Some(labels)) => Some(
                    AppleListConfig { id, image, hostname, labels },
                ),
                _ => None,
            }
        },
        Slot::Clash => None,
    }
}

fn read_networks(s: Slot) -> (r: Option<Vec<String>>)
    ensures
        match r {
            Some(v) => networks_or_default(slot_view(s)) == Some(texts(v@)),
            None => networks_or_default(slot_view(s)) is None,
        },
{
    let mut out: Vec<String> = Vec::new();
    assert(texts(out@) =~= Seq::<Seq<char>>::empty());
    match s {
        Slot::Absent => Some(out),
        Slot::Clash => None,
        Slot::Value(v) => match open(v) {
            Json::Array(items) => {
                let ghost all = json_items(items@);
                let ghost decode = |v: JsonView| apple_address(v);
                let names = Names { a: "address", b: "ip", c: "ipAddress", d: "ip_address" };
                let mut i: usize = 0;
                assert(all.take(0) =~= Seq::empty());
                while i < items.len()
                    invariant
                        i <= items@.len(),
                        all == json_items(items@),
                        names == address_names(),
                        decode == (|v: JsonView| apple_address(v)),
                        all_decoded(all.take(i as int), decode) == Some(texts(out@)),
                        networks_or_default(slot_view(s)) == all_decoded(all, decode),
                    decreases items@.len() - i,
                {
                    proof {
                        assert(all.take(i + 1).drop_last() =~= all.take(i as int));
                        assert(all.take(i + 1).last() == all[i as int]);
                    }
                    let j = open(&items[i]);
                    let address = if record(&j, 1) {
                        default_text(slot(&j, 0, names))
                    } else {
                        None
                    };
                    match address {
                        Some(a) => out.push(a),
                        None => {
                            proof {
                                lemma_decoded_prefix(all, decode, i + 1);
                            }
                            return None;
                        },
                    }
                    i += 1;
                }
                assert(all.take(i as int) =~= all);
                Some(out)
            },
            _ => None,
        },
    }
}

/// Reads an entry of a list of containers, or of an inspection.
pub fn read_entry(v: &serde_json::Value) -> (r: Option<AppleListEntry>)
    ensures
        match r {
            Some(e) => apple_entry(json_of(*v)) == Some(e@),
            None => apple_entry(json_of(*v)) is None,
        },
{
    let j = open(v);
    if !record(&j, 3) {
        return None;
    }
    let configuration = read_config(slot(&j, 0, one_name("configuration")));
    let status = default_text(slot(&j, 1, one_name("status")));
    let networks = read_networks(slot(&j, 2, one_name("networks")));
    match (configuration, status, networks) {
        (Some(configuration), Some(status), Some(networks)) => Some(
            AppleListEntry { configuration, status, networks },
        ),
        _ => None,
    }
}

fn read_entries(text: &str) -> (r: Option<Vec<AppleListEntry>>)
    ensures
        match r {
            Some(l) => apple_entries_in(text@) == Some(entry_views(l@)),
            None => apple_entries_in(text@) is None,
        },
{
    let v = match parse(text) {
        Ok(v) => v,
        Err(_) => {
            return None;
        },
    };
    let mut out: Vec<AppleListEntry> = Vec::new();
    assert(entry_views(out@) =~= Seq::empty());
    match open(&v) {
        Json::Array(items) => {
            let ghost all = json_items(items@);
            let ghost decode = |v: JsonView| apple_entry(v);
            let mut i: usize = 0;
            assert(all.take(0) =~= Seq::empty());
            while i < items.len()
                invariant
                    i <= items@.len(),
                    all == json_items(items@),
                    decode == (|v: JsonView| apple_entry(v)),
                    all_decoded(all.take(i as int), decode) == Some(entry_views(out@)),
                    apple_entries_in(text@) == all_decoded(all, decode),
                decreases items@.len() - i,
            {
                proof {
                    assert(all.take(i + 1).drop_last() =~= all.take(i as int));
                    assert(all.take(i + 1).last() == all[i as int]);
                }
                match read_entry(&items[i]) {
                    Some(entry) => {
                        let ghost before = out@;
                        out.push(entry);
                        assert(entry_views(out@) =~= entry_views(before).push(entry@));
                    },
                    None => {
                        proof {
                            lemma_decoded_prefix(all, decode, i + 1);
                        }
                        return None;
                    },
                }
                i += 1;
            }
            assert(all.take(i as int) =~= all);
            Some(out)
        },
        _ => None,
    }
}

/// A container as its entry describes it. The host name stands for the name
/// where there is one.
pub open spec fn apple_info(e: AppleEntryView) -> ContainerInfoView {
    ContainerInfoView {
        id: e.configuration.id,
        name: if e.configuration.hostname.len() == 0 {
            e.configuration.id
        } else {
            e.configuration.hostname
        },
        image: e.configuration.image,
        status: e.status,
        ports: Seq::empty(),
        labels: e.configuration.labels,
        created: Seq::empty(),
        ip_address: if e.networks.len() > 0 {
            e.networks[0]
        } else {
            Seq::empty()
        },
    }
}

impl AppleListEntry {
    /// The container that the entry describes.
    pub fn into_info(self) -> (r: ContainerInfo)
        ensures
            r@ == apple_info(self@),
    {
        let AppleListEntry { configuration, status, networks } = self;
        let AppleListConfig { id, image, hostname, labels } = configuration;
        assert(texts(networks@).len() == networks@.len());
        let name = if hostname.as_str().is_empty() {
            id.clone()
        } else {
            hostname
        };
        let ip_address = if networks.len() > 0 {
            assert(texts(networks@)[0] == networks@[0]@);
            networks[0].clone()
        } else {
            String::new()
        };
        let ports: Vec<String> = Vec::new();
        assert(texts(ports@) =~= Seq::<Seq<char>>::empty());
        ContainerInfo {
            id,
            name,
            image,
            status,
            ports,
            labels,
            created: String::new(),
            ip_address,
        }
    }
}

/// The containers that entries describe.
pub open spec fn apple_infos(es: Seq<AppleEntryView>) -> Seq<ContainerInfoView> {
    es.map_values(|e: AppleEntryView| apple_info(e))
}

/// Whether a container among them is identified.
pub open spec fn any_identified(es: Seq<AppleEntryView>) -> bool {
    exists|i: int| 0 <= i < es.len() && (#[trigger] es[i]).configuration.id.len() > 0
}

/// A list of containers in the Docker form: a line for each, or else an array.
pub open spec fn docker_shaped(stdout: Seq<char>) -> Seq<ContainerInfoView> {
    let ls = listed(lines_of(stdout));
    if ls.len() > 0 {
        ls
    } else {
        listed_in_array(trimmed(stdout))
    }
}

/// A list of containers: nothing for an empty text or array; entries of the
/// runtime's own form where one of them is identified; else the Docker form.
pub open spec fn apple_listed(stdout: Seq<char>) -> Seq<ContainerInfoView> {
    let t = trimmed(stdout);
    if t.len() == 0 || t == "[]"@ {
        Seq::empty()
    } else {
        match apple_entries_in(t) {
            Some(es) => if any_identified(es) {
                apple_infos(es)
            } else {
                docker_shaped(stdout)
            },
            None => docker_shaped(stdout),
        }
    }
}

fn into_infos(entries: Vec<AppleListEntry>) -> (r: Vec<ContainerInfo>)
    ensures
        info_views(r@) == apple_infos(entry_views(entries@)),
{
    let ghost all = apple_infos(entry_views(entries@));
    let mut out: Vec<ContainerInfo> = Vec::new();
    let mut rest = entries;
    assert(info_views(out@) =~= Seq::empty());
    while rest.len() > 0
        invariant
            rest@.len() + out@.len() == all.len(),
            apple_infos(entry_views(rest@)) == all.skip(
                out@.len() as int,
            ),
            info_views(out@) == all.take(out@.len() as int),
        decreases rest@.len(),
    {
        let ghost n = out@.len() as int;
        let ghost before = out@;
        let ghost ahead = apple_infos(entry_views(rest@));
        assert(ahead[0] == all[n]);
        let ghost old_rest = rest@;
        let info = rest.remove(0).into_info();
        out.push(info);
        proof {
            assert(info_views(out@) =~= info_views(before).push(info@));
            assert(all.take(n + 1) =~= all.take(n).push(all[n]));
            assert(apple_infos(entry_views(rest@)) =~= all.skip(
                n + 1,
            )) by {
                assert forall|i: int| 0 <= i < rest@.len() implies apple_info(rest@[i]@) == all[n
                    + 1 + i] by {
                    assert(rest@[i] == old_rest[i + 1]);
                    assert(ahead[i + 1] == all.skip(n)[i + 1]);
                }
            }
        }
    }
    assert(all.take(out@.len() as int) =~= all);
    out
}

/// Reads a list of containers.
pub fn apple_list(stdout: &str) -> (r: Vec<ContainerInfo>)
    ensures
        info_views(r@) == apple_listed(stdout@),
{
    let trimmed_text = trim(stdout);
    if trimmed_text.as_str().is_empty() || same(trimmed_text.as_str(), "[]") {
        let out: Vec<ContainerInfo> = Vec::new();
        assert(info_views(out@) =~= Seq::empty());
        return out;
    }
    if let Some(entries) = read_entries(trimmed_text.as_str()) {
        let ghost es = entry_views(entries@);
        let mut any: bool = false;
        let mut i: usize = 0;
        while i < entries.len()
            invariant
                i <= entries@.len(),
                es == entry_views(entries@),
                any == any_identified(es.take(i as int)),
            decreases entries@.len() - i,
        {
            proof {
                let more = es.take(i + 1);
                assert(more[i as int] == entries@[i as int]@);
                assert forall|k: int| 0 <= k < i implies (#[trigger] more[k]) == es.take(
                    i as int,
                )[k] by {}
                if any {
                    let k = choose|k: int|
                        0 <= k < i && (#[trigger] es.take(i as int)[k]).configuration.id.len() > 0;
                    assert(more[k].configuration.id.len() > 0);
                }
            }
            if !entries[i].configuration.id.as_str().is_empty() {
                any = true;
            }
            i += 1;
        }
        assert(es.take(i as int) =~= es);
        if any {
            return into_infos(entries);
        }
    }
    let by_line = docker_list(stdout);
    assert(info_views(by_line@).len() == by_line@.len());
    if by_line.len() > 0 {
        by_line
    } else {
        docker_array(trimmed_text.as_str())
    }
}

/// What an inspection says: the first container, where it has an identifier or
/// an image; else what the Docker form says.
pub open spec fn apple_inspected(stdout: Seq<char>) -> std::result::Result<
    ContainerInfoView,
    ErrorView,
> {
    let t = trimmed(stdout);
    if t.len() == 0 {
        Err(ErrorView::NotFound("Inspect output empty"@))
    } else {
        match apple_entries_in(t) {
            Some(es) => if es.len() > 0 && (es[0].configuration.id.len() > 0
                || es[0].configuration.image.len() > 0) {
                Ok(apple_info(es[0]))
            } else {
                docker_inspected(stdout)
            },
            None => docker_inspected(stdout),
        }
    }
}

/// Reads an inspection.
pub fn apple_inspect(stdout: &str) -> (r: Result<ContainerInfo>)
    ensures
        same_inspection(r, apple_inspected(stdout@)),
{
    let trimmed_text = trim(stdout);
    if trimmed_text.as_str().is_empty() {
        return Err(ComposeError::NotFound("Inspect output empty".to_owned()));
    }
    if let Some(entries) = read_entries(trimmed_text.as_str()) {
        let mut entries = entries;
        assert(entry_views(entries@).len() == entries@.len());
        if entries.len() > 0 {
            assert(entry_views(entries@)[0] == entries@[0]@);
            let first = entries.remove(0);
            if !first.configuration.id.as_str().is_empty()
                || !first.configuration.image.as_str().is_empty() {
                return Ok(first.into_info());
            }
        }
    }
    docker_inspect(stdout)
}

// ---- images ----

/// One image of a list.
pub struct AppleImageEntry {
    pub reference: String,
    pub id: String,
    pub name: String,
    pub tag: String,
    pub size: u64,
    pub created: String,
}

/// What an [`AppleImageEntry`] says.
pub struct AppleImageView {
    pub reference: Seq<char>,
    pub id: Seq<char>,
    pub name: Seq<char>,
    pub tag: Seq<char>,
    pub size: u64,
    pub created: Seq<char>,
}

impl View for AppleImageEntry {
    type V = AppleImageView;

    open spec fn view(&self) -> AppleImageView {
        AppleImageView {
            reference: self.reference@,
            id: self.id@,
            name: self.name@,
            tag: self.tag@,
            size: self.size,
            created: self.created@,
        }
    }
}

/// The views of a list of images.
pub open spec fn image_entry_views(v: Seq<AppleImageEntry>) -> Seq<AppleImageView> {
    v.map_values(|e: AppleImageEntry| e@)
}

/// The names of the time at which an image was made.
pub open spec fn created_names() -> Names<'static> {
    Names { a: "created", b: "createdAt", c: "created_at", d: "created_at" }
}

/// One image.
pub open spec fn apple_image(v: JsonView) -> Option<AppleImageView> {
    if !is_record(v, 6) {
        None
    } else {
        match (
            text_or_default(field(v, 0, named("reference"))),
            text_or_default(field(v, 1, either("id", "ID"))),
            text_or_default(field(v, 2, named("name"))),
            text_or_default(field(v, 3, named("tag"))),
            number_or_default(field(v, 4, named("size"))),
            text_or_default(field(v, 5, created_names())),
        ) {
            (
                Some(reference),
                Some(id),
                Some(name),
                Some(tag),
                Some(size),
                Some(created),
            ) => Some(AppleImageView { reference, id, name, tag, size, created }),
            _ => None,
        }
    }
}

/// A list of images in a text.
pub open spec fn apple_images_in(text: Seq<char>) -> Option<Seq<AppleImageView>> {
    match json_parsed(text) {
        Ok(JsonView::Array(items)) => all_decoded(items, |v: JsonView| apple_image(v)),
        _ => None,
    }
}

/// Reads an entry of a list of images.
pub fn read_image(v: &serde_json::Value) -> (r: Option<AppleImageEntry>)
    ensures
        match r {
            Some(e) => apple_image(json_of(*v)) == Some(e@),
            None => apple_image(json_of(*v)) is None,
        },
{
    let j = open(v);
    if !record(&j, 6) {
        return None;
    }
    let created_under = Names { a: "created", b: "createdAt", c: "created_at", d: "created_at" };
    let reference = default_text(slot(&j, 0, one_name("reference")));
    let id = default_text(slot(&j, 1, two_names("id", "ID")));
    let name = default_text(slot(&j, 2, one_name("name")));
    let tag = default_text(slot(&j, 3, one_name("tag")));
    let size = default_number(slot(&j, 4, one_name("size")));
    let created = default_text(slot(&j, 5, created_under));
    match (reference, id, name, tag, size, created) {
        (Some(reference), Some(id), Some(name), Some(tag), Some(size), Some(created)) => Some(
            AppleImageEntry { reference, id, name, tag, size, created },
        ),
        _ => None,
    }
}

fn read_images(text: &str) -> (r: Option<Vec<AppleImageEntry>>)
    ensures
        match r {
            Some(l) => apple_images_in(text@) == Some(image_entry_views(l@)),
            None => apple_images_in(text@) is None,
        },
{
    let v = match parse(text) {
        Ok(v) => v,
        Err(_) => {
            return None;
        },
    };
    let mut out: Vec<AppleImageEntry> = Vec::new();
    assert(image_entry_views(out@) =~= Seq::empty());
    match open(&v) {
        Json::Array(items) => {
            let ghost all = json_items(items@);
            let ghost decode = |v: JsonView| apple_image(v);
            let mut i: usize = 0;
            assert(all.take(0) =~= Seq::empty());
            while i < items.len()
                invariant
                    i <= items@.len(),
                    all == json_items(items@),
                    decode == (|v: JsonView| apple_image(v)),
                    all_decoded(all.take(i as int), decode) == Some(image_entry_views(out@)),
                    apple_images_in(text@) == all_decoded(all, decode),
                decreases items@.len() - i,
            {
                proof {
                    assert(all.take(i + 1).drop_last() =~= all.take(i as int));
                    assert(all.take(i + 1).last() == all[i as int]);
                }
                match read_image(&items[i]) {
                    Some(entry) => {
                        let ghost before = out@;
                        out.push(entry);
                        assert(image_entry_views(out@) =~= image_entry_views(before).push(entry@));
                    },
                    None => {
                        proof {
                            lemma_decoded_prefix(all, decode, i + 1);
                        }
                        return None;
                    },
                }
                i += 1;
            }
            assert(all.take(i as int) =~= all);
            Some(out)
        },
        _ => None,
    }
}

/// Where the last part of a path begins.
pub open spec fn last_part(s: Seq<char>) -> int {
    match s.index_of_last('/') {
        Some(i) => i + 1,
        None => 0,
    }
}

/// The repository and tag of an image reference. A digest counts as a tag; a
/// port of the registry does not; without a tag it is the latest.
pub open spec fn image_parts(s: Seq<char>) -> (Seq<char>, Seq<char>) {
    match s.index_of_last('@') {
        Some(i) => (s.take(i), s.skip(i + 1)),
        None => {
            let from = last_part(s);
            match s.skip(from).index_of_last(':') {
                Some(c) => (s.take(from + c), s.skip(from + c + 1)),
                None => (s, "latest"@),
            }
        },
    }
}

/// Splits an image reference into repository and tag.
pub fn split_image_reference(reference: &str) -> (r: (String, String))
    ensures
        (r.0@, r.1@) == image_parts(reference@),
{
    let cs = chars_of(reference);
    let n: usize = cs.len();
    if let Some(i) = rfind(&cs, '@') {
        let repository = span(&cs, 0, i);
        let digest = span(&cs, i + 1, n);
        assert(repository@ =~= reference@.take(i as int));
        assert(digest@ =~= reference@.skip(i + 1));
        return (repository, digest);
    }
    let from: usize = match rfind(&cs, '/') {
        Some(i) => i + 1,
        None => 0,
    };
    let tail = chars_of(span(&cs, from, n).as_str());
    assert(tail@ =~= reference@.skip(from as int));
    if let Some(c) = rfind(&tail, ':') {
        let colon: usize = from + c;
        let repository = span(&cs, 0, colon);
        let tag = span(&cs, colon + 1, n);
        assert(repository@ =~= reference@.take(colon as int));
        assert(tag@ =~= reference@.skip(colon + 1));
        return (repository, tag);
    }
    (reference.to_owned(), "latest".to_owned())
}

/// The repository and tag of an image: from its reference, or else from its
/// name, with the latest tag where none is given.
pub open spec fn entry_parts(e: AppleImageView) -> (Seq<char>, Seq<char>) {
    if e.reference.len() > 0 {
        image_parts(e.reference)
    } else if e.name.len() > 0 {
        (
            e.name,
            if e.tag.len() == 0 {
                "latest"@
            } else {
                e.tag
            },
        )
    } else {
        (Seq::empty(), Seq::empty())
    }
}

/// An image as its entry describes it.
pub open spec fn apple_image_info(e: AppleImageView) -> ImageInfoView {
    ImageInfoView {
        id: e.id,
        repository: entry_parts(e).0,
        tag: entry_parts(e).1,
        size: e.size,
        created: e.created,
    }
}

impl AppleImageEntry {
    /// The image that the entry describes.
    pub fn into_info(self) -> (r: ImageInfo)
        ensures
            r@ == apple_image_info(self@),
    {
        let (repository, tag) = if !self.reference.as_str().is_empty() {
            split_image_reference(self.reference.as_str())
        } else if !self.name.as_str().is_empty() {
            let tag = if self.tag.as_str().is_empty() {
                "latest".to_owned()
            } else {
                self.tag.clone()
            };
            (self.name.clone(), tag)
        } else {
            (String::new(), String::new())
        };
        ImageInfo { id: self.id, repository, tag, size: self.size, created: self.created }
    }
}

/// The images that entries describe.
pub open spec fn apple_image_infos(es: Seq<AppleImageView>) -> Seq<ImageInfoView> {
    es.map_values(|e: AppleImageView| apple_image_info(e))
}

/// Whether an image is described at all.
pub open spec fn described(e: AppleImageView) -> bool {
    e.reference.len() > 0 || e.id.len() > 0 || e.name.len() > 0
}

/// Whether an image among them is described.
pub open spec fn any_described(es: Seq<AppleImageView>) -> bool {
    exists|i: int| 0 <= i < es.len() && described(#[trigger] es[i])
}

/// A list of images: nothing for an empty text; entries of the runtime's own
/// form where one of them is described; else the Docker form.
pub open spec fn apple_images_listed(stdout: Seq<char>) -> Seq<ImageInfoView> {
    let t = trimmed(stdout);
    if t.len() == 0 {
        Seq::empty()
    } else {
        match apple_images_in(t) {
            Some(es) => if any_described(es) {
                apple_image_infos(es)
            } else {
                listed_images(lines_of(stdout))
            },
            None => listed_images(lines_of(stdout)),
        }
    }
}

fn into_images(entries: Vec<AppleImageEntry>) -> (r: Vec<ImageInfo>)
    ensures
        image_views(r@) == apple_image_infos(image_entry_views(entries@)),
{
    let ghost all = apple_image_infos(image_entry_views(entries@));
    let mut out: Vec<ImageInfo> = Vec::new();
    let mut rest = entries;
    assert(image_views(out@) =~= Seq::empty());
    while rest.len() > 0
        invariant
            rest@.len() + out@.len() == all.len(),
            apple_image_infos(image_entry_views(rest@))
                == all.skip(out@.len() as int),
            image_views(out@) == all.take(out@.len() as int),
        decreases rest@.len(),
    {
        let ghost n = out@.len() as int;
        let ghost before = out@;
        let ghost ahead = apple_image_infos(image_entry_views(rest@));
        assert(ahead[0] == all[n]);
        let ghost old_rest = rest@;
        let image = rest.remove(0).into_info();
        out.push(image);
        proof {
            assert(image_views(out@) =~= image_views(before).push(image@));
            assert(all.take(n + 1) =~= all.take(n).push(all[n]));
            assert(apple_image_infos(image_entry_views(rest@))
                =~= all.skip(n + 1)) by {
                assert forall|i: int| 0 <= i < rest@.len() implies apple_image_info(rest@[i]@)
                    == all[n + 1 + i] by {
                    assert(rest@[i] == old_rest[i + 1]);
                    assert(ahead[i + 1] == all.skip(n)[i + 1]);
                }
            }
        }
    }
    assert(all.take(out@.len() as int) =~= all);
    out
}

/// Reads a list of images.
pub fn apple_images(stdout: &str) -> (r: Vec<ImageInfo>)
    ensures
        image_views(r@) == apple_images_listed(stdout@),
{
    let trimmed_text = trim(stdout);
    if trimmed_text.as_str().is_empty() {
        let out: Vec<ImageInfo> = Vec::new();
        assert(image_views(out@) =~= Seq::empty());
        return out;
    }
    if let Some(entries) = read_images(trimmed_text.as_str()) {
        let ghost es = image_entry_views(entries@);
        let mut any: bool = false;
        let mut i: usize = 0;
        while i < entries.len()
            invariant
                i <= entries@.len(),
                es == image_entry_views(entries@),
                any == any_described(es.take(i as int)),
            decreases entries@.len() - i,
        {
            proof {
                let more = es.take(i + 1);
                assert(more[i as int] == entries@[i as int]@);
                assert forall|k: int| 0 <= k < i implies (#[trigger] more[k]) == es.take(
                    i as int,
                )[k] by {}
                if any {
                    let k = choose|k: int| 0 <= k < i && described(#[trigger] es.take(i as int)[k]);
                    assert(described(more[k]));
                }
            }
            if !entries[i].reference.as_str().is_empty() || !entries[i].id.as_str().is_empty()
                || !entries[i].name.as_str().is_empty() {
                any = true;
            }
            i += 1;
        }
        assert(es.take(i as int) =~= es);
        if any {
            return into_images(entries);
        }
    }
    docker_images(stdout)
}

} // verus!
