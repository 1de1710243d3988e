//! The output modules of a recording, read from the XML description in its header.
use vstd::prelude::*;
use crate::codec::{empty_module, modules_view, ModuleInfo, ModuleInfoView, OutputInfoView};
use crate::number::{all_digits, decimal_i64, decimal_u32, digits_value, parse_i64, parse_u32};
use crate::text::{ends_with, is_prefix, is_suffix, starts_with, str_equal};

verus! {

/// An attribute of an XML element: its local name and its value.
#[derive(Debug)]
pub struct XmlAttribute {
    pub name: String,
    pub value: String,
}

/// An event of the XML description, as far as the module list depends on it.
#[derive(Debug)]
pub enum MetadataEvent {
    /// The start of an element, with the element's local name and attributes.
    StartElement { name: String, attributes: Vec<XmlAttribute> },
    /// Character data.
    Characters(String),
    /// Any other well-formed piece of XML.
    Other,
    /// A syntax error, after which no event follows.
    Malformed,
}

/// What a [`MetadataEvent`] holds, with its texts as character sequences.
pub enum MetadataEventView {
    StartElement { name: Seq<char>, attributes: Seq<(Seq<char>, Seq<char>)> },
    Characters(Seq<char>),
    Other,
    Malformed,
}

impl View for XmlAttribute {
    type V = (Seq<char>, Seq<char>);

    open spec fn view(&self) -> (Seq<char>, Seq<char>) {
        (self.name@, self.value@)
    }
}

/// The views of a sequence of attributes.
pub open spec fn attributes_view(attrs: Seq<XmlAttribute>) -> Seq<(Seq<char>, Seq<char>)> {
    attrs.map_values(|a: XmlAttribute| a@)
}

impl View for MetadataEvent {
    type V = MetadataEventView;

    open spec fn view(&self) -> MetadataEventView {
        match self {
            MetadataEvent::StartElement { name, attributes } => MetadataEventView::StartElement {
                name: name@,
                attributes: attributes_view(attributes@),
            },
            MetadataEvent::Characters(t) => MetadataEventView::Characters(t@),
            MetadataEvent::Other => MetadataEventView::Other,
            MetadataEvent::Malformed => MetadataEventView::Malformed,
        }
    }
}

/// The views of a sequence of events.
pub open spec fn events_view(events: Seq<MetadataEvent>) -> Seq<MetadataEventView> {
    events.map_values(|e: MetadataEvent| e@)
}

/// The events that an XML parser reports for the document `text`, in order.
pub uninterp spec fn xml_events(text: Seq<char>) -> Seq<MetadataEventView>;

/// Parses `text` with `xml::reader::EventReader` (default configuration) and keeps,
/// for each event, what the module list depends on: element starts with their local
/// names and attributes, character data, and whether the event was an error. The
/// events are a function of the text alone; what they are is left to the name
/// `xml_events`.
#[verifier::external_body]
fn read_xml_events(text: &str) -> (r: Vec<MetadataEvent>)
    ensures
        events_view(r@) == xml_events(text@),
{
    let mut events = Vec::new();
    for e in xml::reader::EventReader::new(text.as_bytes()) {
        events.push(match e {
            Ok(xml::reader::XmlEvent::StartElement { name, attributes, .. }) => MetadataEvent::StartElement {
                name: name.local_name,
                attributes: attributes.into_iter().map(|a| XmlAttribute { name: a.name.local_name, value: a.value }).collect(),
            },
            Ok(xml::reader::XmlEvent::Characters(t)) => MetadataEvent::Characters(t),
            Ok(_) => MetadataEvent::Other,
            Err(_) => MetadataEvent::Malformed,
        });
    }
    events
}

/// The path of the node that describes an output module starts with this.
pub open spec fn output_root() -> Seq<char> {
    "/mainloop/Recorder/outInfo"@
}

/// `path` names an output node and not the `info/` node below one.
pub open spec fn is_output_path(path: Seq<char>) -> bool {
    is_prefix(output_root(), path) && !is_suffix("info/"@, path)
}

/// Some `path` attribute of the element names an output node.
pub open spec fn is_root_output_node_spec(attrs: Seq<(Seq<char>, Seq<char>)>) -> bool {
    exists|i: int| 0 <= i < attrs.len() && attrs[i].0 == "path"@ && is_output_path(#[trigger] attrs[i].1)
}

/// The attribute key in effect after an `attr` element with `attrs`: the value of its last
/// `key` attribute, or `key` when it has none.
pub open spec fn key_after(attrs: Seq<(Seq<char>, Seq<char>)>, key: Option<Seq<char>>) -> Option<Seq<char>>
    decreases attrs.len(),
{
    if attrs.len() == 0 {
        key
    } else if attrs.last().0 == "key"@ {
        Some(attrs.last().1)
    } else {
        key_after(attrs.drop_last(), key)
    }
}

/// `module` after the text `t` of the attribute `key` was read.
pub open spec fn with_text(module: ModuleInfoView, key: Seq<char>, t: Seq<char>) -> ModuleInfoView {
    let info = module.output_info;
    let with_info = |i: OutputInfoView|
        ModuleInfoView { output_name: module.output_name, description: module.description, output_info: i };
    if key == "typeIdentifier"@ {
        ModuleInfoView { output_name: t, description: module.description, output_info: info }
    } else if key == "sizeX"@ {
        with_info(OutputInfoView { size_x: decimal_u32(t), ..info })
    } else if key == "sizeY"@ {
        with_info(OutputInfoView { size_y: decimal_u32(t), ..info })
    } else if key == "source"@ {
        with_info(OutputInfoView { source: Some(t), ..info })
    } else if key == "tsOffset"@ {
        with_info(OutputInfoView { ts_offset: decimal_i64(t), ..info })
    } else if key == "typeDescription"@ {
        ModuleInfoView { output_name: module.output_name, description: t, output_info: info }
    } else {
        module
    }
}

/// The state of reading the module list: the modules finished so far, the module being
/// read, and the attribute key whose text comes next.
pub struct ScanState {
    pub modules: Seq<ModuleInfoView>,
    pub current: ModuleInfoView,
    pub key: Option<Seq<char>>,
}

/// The state before any event.
pub open spec fn scan_start() -> ScanState {
    ScanState { modules: Seq::empty(), current: empty_module(), key: None }
}

/// The state after the event `e`. A `node` element that is an output node closes the
/// module being read, if some attribute was seen since the last one closed; an `attr`
/// element sets the key; character data fills the field the key names.
pub open spec fn scan_step(s: ScanState, e: MetadataEventView) -> ScanState {
    match e {
        MetadataEventView::StartElement { name, attributes } => {
            if name == "node"@ {
                if is_root_output_node_spec(attributes) && s.key is Some {
                    ScanState { modules: s.modules.push(s.current), current: empty_module(), key: None }
                } else {
                    s
                }
            } else if name == "attr"@ {
                ScanState { modules: s.modules, current: s.current, key: key_after(attributes, s.key) }
            } else {
                s
            }
        },
        MetadataEventView::Characters(t) => match s.key {
            Some(k) => ScanState { modules: s.modules, current: with_text(s.current, k, t), key: s.key },
            None => s,
        },
        _ => s,
    }
}

/// The state after the events `events`, in order.
pub open spec fn scan(events: Seq<MetadataEventView>) -> ScanState
    decreases events.len(),
{
    if events.len() == 0 {
        scan_start()
    } else {
        scan_step(scan(events.drop_last()), events.last())
    }
}

/// The view of an optional text.
pub open spec fn opt_text(o: Option<String>) -> Option<Seq<char>> {
    match o {
        Some(s) => Some(s@),
        None => None,
    }
}

/// Whether some `path` attribute in `attrs` names an output node: its value starts
/// with `/mainloop/Recorder/outInfo` and does not end with `info/`.
pub fn is_root_output_node(attrs: &Vec<XmlAttribute>) -> (r: bool)
    ensures
        r == is_root_output_node_spec(attributes_view(attrs@)),
{
    let ghost v = attributes_view(attrs@);
    let mut i: usize = 0;
    while i < attrs.len()
        invariant
            i <= attrs@.len(),
            v == attributes_view(attrs@),
            forall|j: int| 0 <= j < i ==> !(v[j].0 == "path"@ && is_output_path(#[trigger] v[j].1)),
        decreases attrs@.len() - i,
    {
        let a = &attrs[i];
        if str_equal(a.name.as_str(), "path") && starts_with(a.value.as_str(), "/mainloop/Recorder/outInfo")
            && !ends_with(a.value.as_str(), "info/") {
            assert(v[i as int].0 == "path"@ && is_output_path(v[i as int].1));
            return true;
        }
        i = i + 1;
    }
    false
}

/// The attribute key in effect after an `attr` element with `attrs`.
fn key_after_attrs(attrs: &Vec<XmlAttribute>, key: Option<String>) -> (r: Option<String>)
    ensures
        opt_text(r) == key_after(attributes_view(attrs@), opt_text(key)),
{
    let ghost v = attributes_view(attrs@);
    let mut k = key;
    let mut i: usize = 0;
    while i < attrs.len()
        invariant
            i <= attrs@.len(),
            v == attributes_view(attrs@),
            opt_text(k) == key_after(v.take(i as int), opt_text(key)),
        decreases attrs@.len() - i,
    {
        if str_equal(attrs[i].name.as_str(), "key") {
            k = Some(attrs[i].value.clone());
        }
        assert(v.take(i + 1).drop_last() =~= v.take(i as int));
        i = i + 1;
    }
    assert(v.take(attrs@.len() as int) =~= v);
    k
}

/// Fills the field of `module` that `key` names with the text `t`.
fn apply_text(module: &mut ModuleInfo, key: &str, t: &String)
    ensures
        final(module)@ == with_text(old(module)@, key@, t@),
{
    if str_equal(key, "typeIdentifier") {
        module.output_name = t.clone();
    } else if str_equal(key, "sizeX") {
        module.output_info.size_x = parse_u32(t.as_str());
    } else if str_equal(key, "sizeY") {
        module.output_info.size_y = parse_u32(t.as_str());
    } else if str_equal(key, "source") {
        module.output_info.source = Some(t.clone());
    } else if str_equal(key, "tsOffset") {
        module.output_info.ts_offset = parse_i64(t.as_str());
    } else if str_equal(key, "typeDescription") {
        module.description = t.clone();
    }
}

/// The modules that the events list: those closed by a following output node, then the
/// module still being read at the end, if some attribute of it was seen.
pub open spec fn listed_modules(events: Seq<MetadataEventView>) -> Seq<ModuleInfoView> {
    let s = scan(events);
    if s.key is Some {
        s.modules.push(s.current)
    } else {
        s.modules
    }
}

/// Reads the output modules from the events of the XML description, in document order.
pub fn collect_output_modules(events: &Vec<MetadataEvent>) -> (r: Vec<ModuleInfo>)
    ensures
        modules_view(r@) == listed_modules(events_view(events@)),
{
    let ghost ev = events_view(events@);
    let mut modules: Vec<ModuleInfo> = Vec::new();
    let mut current = ModuleInfo::default();
    let mut key: Option<String> = None;
    let mut i: usize = 0;
    while i < events.len()
        invariant
            i <= events@.len(),
            ev == events_view(events@),
            modules_view(modules@) == scan(ev.take(i as int)).modules,
            current@ == scan(ev.take(i as int)).current,
            opt_text(key) == scan(ev.take(i as int)).key,
        decreases events@.len() - i,
    {
        assert(ev.take(i + 1).drop_last() =~= ev.take(i as int));
        let ghost before_modules = modules@;
        match &events[i] {
            MetadataEvent::StartElement { name, attributes } => {
                if str_equal(name.as_str(), "node") {
                    if is_root_output_node(attributes) && key.is_some() {
                        modules.push(current);
                        current = ModuleInfo::default();
                        key = None;
                        assert(modules_view(modules@) =~= modules_view(before_modules).push(
                            scan(ev.take(i as int)).current,
                        ));
                    }
                } else if str_equal(name.as_str(), "attr") {
                    key = key_after_attrs(attributes, key);
                }
            },
            MetadataEvent::Characters(t) => {
                match &key {
                    Some(k) => {
                        apply_text(&mut current, k.as_str(), t);
                    },
                    None => {},
                }
            },
            _ => {},
        }
        i = i + 1;
    }
    assert(ev.take(events@.len() as int) =~= ev);
    if key.is_some() {
        let ghost before_modules = modules@;
        modules.push(current);
        assert(modules_view(modules@) =~= modules_view(before_modules).push(scan(ev).current));
    }
    modules
}

/// The events of the XML description `text`.
pub fn metadata_events(text: &str) -> (r: Vec<MetadataEvent>)
    ensures
        events_view(r@) == xml_events(text@),
{
    read_xml_events(text)
}

/// The output modules listed in the XML description `text`.
pub fn read_output_modules(text: &str) -> (r: Vec<ModuleInfo>)
    ensures
        modules_view(r@) == listed_modules(xml_events(text@)),
{
    let events = metadata_events(text);
    collect_output_modules(&events)
}

/// An element name that the module list does not expect: none of `dv`, `node`, `attr`.
pub open spec fn is_unexpected_tag(name: Seq<char>) -> bool {
    name != "dv"@ && name != "node"@ && name != "attr"@
}

/// The names of the elements, in order, that the module list does not expect.
pub open spec fn unexpected_tags(events: Seq<MetadataEventView>) -> Seq<Seq<char>>
    decreases events.len(),
{
    if events.len() == 0 {
        Seq::empty()
    } else {
        let before = unexpected_tags(events.drop_last());
        match events.last() {
            MetadataEventView::StartElement { name, .. } => if is_unexpected_tag(name) {
                before.push(name)
            } else {
                before
            },
            _ => before,
        }
    }
}

/// The views of a sequence of texts.
pub open spec fn texts_view(texts: Seq<String>) -> Seq<Seq<char>> {
    texts.map_values(|t: String| t@)
}

/// The names of the elements among `events` that the module list does not expect, in
/// order: the tags that a reader of the description is told about.
pub fn unexpected_tags_of(events: &Vec<MetadataEvent>) -> (r: Vec<String>)
    ensures
        texts_view(r@) == unexpected_tags(events_view(events@)),
{
    let ghost ev = events_view(events@);
    let mut tags: Vec<String> = Vec::new();
    let mut i: usize = 0;
    while i < events.len()
        invariant
            i <= events@.len(),
            ev == events_view(events@),
            texts_view(tags@) == unexpected_tags(ev.take(i as int)),
        decreases events@.len() - i,
    {
        assert(ev.take(i + 1).drop_last() =~= ev.take(i as int));
        let ghost before = tags@;
        match &events[i] {
            MetadataEvent::StartElement { name, .. } => {
                if !str_equal(name.as_str(), "dv") && !str_equal(name.as_str(), "node") && !str_equal(
                    name.as_str(),
                    "attr",
                ) {
                    tags.push(name.clone());
                    assert(texts_view(tags@) =~= texts_view(before).push(name@));
                }
            },
            _ => {},
        }
        i = i + 1;
    }
    assert(ev.take(events@.len() as int) =~= ev);
    tags
}

/// Once a module is closed by the next output node, later events neither drop nor change
/// it: the modules closed after the events `first` begin the modules closed after `first`
/// and then `more`.
pub proof fn lemma_closed_modules_are_final(first: Seq<MetadataEventView>, more: Seq<MetadataEventView>)
    ensures
        scan(first).modules.len() <= scan(first + more).modules.len(),
        scan(first + more).modules.subrange(0, scan(first).modules.len() as int) == scan(first).modules,
    decreases more.len(),
{
    if more.len() == 0 {
        assert(first + more =~= first);
        assert(scan(first).modules.subrange(0, scan(first).modules.len() as int) =~= scan(first).modules);
    } else {
        lemma_closed_modules_are_final(first, more.drop_last());
        assert((first + more).drop_last() =~= first + more.drop_last());
        let before = scan(first + more.drop_last()).modules;
        let after = scan(first + more).modules;
        let n = scan(first).modules.len() as int;
        assert(after == before || after == before.push(scan(first + more.drop_last()).current));
        assert(after.subrange(0, n) =~= before.subrange(0, n));
    }
}

/// The state after the events `events`, read from the state `s`.
spec fn scan_from(s: ScanState, events: Seq<MetadataEventView>) -> ScanState
    decreases events.len(),
{
    if events.len() == 0 {
        s
    } else {
        scan_step(scan_from(s, events.drop_last()), events.last())
    }
}

proof fn lemma_scan_is_scan_from_start(events: Seq<MetadataEventView>)
    ensures
        scan(events) == scan_from(scan_start(), events),
    decreases events.len(),
{
    if events.len() > 0 {
        lemma_scan_is_scan_from_start(events.drop_last());
    }
}

proof fn lemma_scan_concat(first: Seq<MetadataEventView>, more: Seq<MetadataEventView>)
    ensures
        scan(first + more) == scan_from(scan(first), more),
    decreases more.len(),
{
    if more.len() == 0 {
        assert(first + more =~= first);
    } else {
        lemma_scan_concat(first, more.drop_last());
        assert((first + more).drop_last() =~= first + more.drop_last());
    }
}

/// Reading events from a state whose finished modules start with `p` is reading them
/// from the state without `p`, with `p` put in front of the modules.
proof fn lemma_scan_from_with_prefix(
    p: Seq<ModuleInfoView>,
    m: Seq<ModuleInfoView>,
    c: ModuleInfoView,
    k: Option<Seq<char>>,
    events: Seq<MetadataEventView>,
)
    ensures
        ({
            let with = scan_from(ScanState { modules: p + m, current: c, key: k }, events);
            let without = scan_from(ScanState { modules: m, current: c, key: k }, events);
            with == ScanState { modules: p + without.modules, current: without.current, key: without.key }
        }),
    decreases events.len(),
{
    if events.len() > 0 {
        lemma_scan_from_with_prefix(p, m, c, k, events.drop_last());
        let without = scan_from(ScanState { modules: m, current: c, key: k }, events.drop_last());
        assert((p + without.modules).push(without.current) =~= p + without.modules.push(without.current));
    }
}

/// An output node that closes a module starts the next module afresh: the modules listed
/// by the events after it do not depend on the events before it, and the events before it
/// keep listing what they listed, the closed module last. So a module holds only values
/// read after its own output node.
pub proof fn lemma_output_node_starts_fresh_module(
    before: Seq<MetadataEventView>,
    attrs: Seq<(Seq<char>, Seq<char>)>,
    after: Seq<MetadataEventView>,
)
    requires
        is_root_output_node_spec(attrs),
        scan(before).key is Some,
    ensures
        listed_modules(
            before.push(MetadataEventView::StartElement { name: "node"@, attributes: attrs }) + after,
        ) == scan(before).modules.push(scan(before).current) + listed_modules(after),
{
    let node = MetadataEventView::StartElement { name: "node"@, attributes: attrs };
    let first = before.push(node);
    assert(first.drop_last() =~= before);
    let closed = scan(before).modules.push(scan(before).current);
    let start = scan(first);
    assert(start.modules == closed && start.key is None);
    lemma_scan_concat(first, after);
    lemma_scan_is_scan_from_start(after);
    lemma_scan_from_with_prefix(closed, Seq::empty(), start.current, None, after);
    assert(closed + Seq::<ModuleInfoView>::empty() =~= closed);
    let rest = scan(after);
    assert(scan(first + after).modules == closed + rest.modules);
    assert((closed + rest.modules).push(rest.current) =~= closed + rest.modules.push(rest.current));
}

/// The text of a `tsOffset` attribute is read as a signed decimal number, whatever its
/// size: digits give the number they spell, a `-` and digits its negation, as long as it
/// fits in an `i64`; the other fields of the module stay as they were.
pub proof fn lemma_ts_offset_is_decimal(module: ModuleInfoView, digits: Seq<char>)
    requires
        digits.len() > 0,
        all_digits(digits),
    ensures
        digits_value(digits) <= i64::MAX ==> with_text(module, "tsOffset"@, digits).output_info.ts_offset
            == Some(digits_value(digits) as i64),
        digits_value(digits) <= i64::MAX + 1 ==> with_text(module, "tsOffset"@, seq!['-'] + digits).output_info.ts_offset
            == Some((-digits_value(digits)) as i64),
        with_text(module, "tsOffset"@, digits).output_name == module.output_name,
        with_text(module, "tsOffset"@, digits).description == module.description,
        with_text(module, "tsOffset"@, digits).output_info.size_x == module.output_info.size_x,
        with_text(module, "tsOffset"@, digits).output_info.size_y == module.output_info.size_y,
        with_text(module, "tsOffset"@, digits).output_info.source == module.output_info.source,
{
    reveal_strlit("tsOffset");
    reveal_strlit("typeIdentifier");
    reveal_strlit("sizeX");
    reveal_strlit("sizeY");
    reveal_strlit("source");
    assert("tsOffset"@ != "typeIdentifier"@) by {
        assert("tsOffset"@.len() != "typeIdentifier"@.len());
    }
    assert("tsOffset"@ != "sizeX"@) by {
        assert("tsOffset"@.len() != "sizeX"@.len());
    }
    assert("tsOffset"@ != "sizeY"@) by {
        assert("tsOffset"@.len() != "sizeY"@.len());
    }
    assert("tsOffset"@ != "source"@) by {
        assert("tsOffset"@.len() != "source"@.len());
    }
    assert(digits[0] != '+' && digits[0] != '-') by {
        assert(crate::number::is_digit(digits[0]));
    }
    crate::number::lemma_digits_value_nonneg(digits);
    let neg = seq!['-'] + digits;
    assert(neg.drop_first() =~= digits);
    assert(neg[0] == '-');
    assert(decimal_i64(digits) == if digits_value(digits) <= i64::MAX {
        Some(digits_value(digits) as i64)
    } else {
        None::<i64>
    });
    assert(digits_value(digits) <= i64::MAX + 1 ==> decimal_i64(neg) == Some((-digits_value(digits)) as i64));
}

} // verus!
