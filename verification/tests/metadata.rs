use aedat_io::metadata::{
    collect_output_modules, is_root_output_node, metadata_events, read_output_modules, unexpected_tags_of,
    MetadataEvent, XmlAttribute,
};

const SAMPLE: &str = r#"<?xml version="1.0" encoding="UTF-8"?>
<dv version="2.0">
  <node name="outInfo" path="/mainloop/Recorder/outInfo/">
    <node name="0" path="/mainloop/Recorder/outInfo/0/">
      <attr key="compression" type="string">LZ4</attr>
      <attr key="typeDescription" type="string">Array of events (polarity ON/OFF).</attr>
      <attr key="typeIdentifier" type="string">EVTS</attr>
      <node name="info" path="/mainloop/Recorder/outInfo/0/info/">
        <attr key="sizeX" type="int">346</attr>
        <attr key="sizeY" type="int">260</attr>
        <attr key="source" type="string">DAVIS346_00000499</attr>
        <attr key="tsOffset" type="long">-1600000000000000</attr>
      </node>
    </node>
    <node name="1" path="/mainloop/Recorder/outInfo/1/">
      <attr key="typeIdentifier" type="string">FRME</attr>
      <node name="info" path="/mainloop/Recorder/outInfo/1/info/">
        <attr key="sizeX" type="int">wide</attr>
      </node>
    </node>
    <node name="2" path="/mainloop/Recorder/outInfo/2/">
      <attr key="typeIdentifier" type="string">IMUS</attr>
    </node>
  </node>
</dv>"#;

fn attr(name: &str, value: &str) -> XmlAttribute {
    XmlAttribute { name: name.to_string(), value: value.to_string() }
}

fn start(name: &str, attributes: Vec<XmlAttribute>) -> MetadataEvent {
    MetadataEvent::StartElement { name: name.to_string(), attributes }
}

#[test]
fn modules_from_xml() {
    let modules = read_output_modules(SAMPLE);
    assert_eq!(modules.len(), 3);
    let m = &modules[0];
    assert_eq!(m.output_name, "EVTS");
    assert_eq!(m.description, "Array of events (polarity ON/OFF).");
    assert_eq!(m.output_info.size_x, Some(346));
    assert_eq!(m.output_info.size_y, Some(260));
    assert_eq!(m.output_info.source.as_deref(), Some("DAVIS346_00000499"));
    assert_eq!(m.output_info.ts_offset, Some(-1600000000000000));
    let m = &modules[1];
    assert_eq!(m.output_name, "FRME");
    assert_eq!(m.output_info.size_x, None);
}

#[test]
fn last_module_is_listed() {
    let modules = read_output_modules(SAMPLE);
    assert_eq!(modules[2].output_name, "IMUS");
    assert_eq!(modules[2].output_info.size_x, None);
}

#[test]
fn single_module_is_listed() {
    let modules = read_output_modules("<dv><node path=\"/mainloop/Recorder/outInfo/0/\"><attr key=\"typeIdentifier\">EVTS</attr></node></dv>");
    assert_eq!(modules.len(), 1);
    assert_eq!(modules[0].output_name, "EVTS");
}

#[test]
fn no_module_without_attributes() {
    assert!(read_output_modules("<dv><node path=\"/mainloop/Recorder/outInfo/0/\"></node></dv>").is_empty());
}

#[test]
fn modules_from_malformed_xml() {
    let modules = read_output_modules("<dv><node path=\"/mainloop/Recorder/outInfo/0/\"><attr key=\"typeIdentifier\">EVTS</attr><node path=\"/mainloop/Recorder/outInfo/1/\"></oops>");
    assert_eq!(modules.len(), 1);
    assert_eq!(modules[0].output_name, "EVTS");
    assert!(read_output_modules("not xml at all <<<").is_empty());
}

#[test]
fn root_output_node_test() {
    assert!(is_root_output_node(&vec![attr("name", "0"), attr("path", "/mainloop/Recorder/outInfo/0/")]));
    assert!(is_root_output_node(&vec![attr("path", "/mainloop/Recorder/outInfo/")]));
    assert!(!is_root_output_node(&vec![attr("path", "/mainloop/Recorder/outInfo/0/info/")]));
    assert!(!is_root_output_node(&vec![attr("path", "/mainloop/other/")]));
    assert!(!is_root_output_node(&vec![attr("name", "/mainloop/Recorder/outInfo/0/")]));
    assert!(!is_root_output_node(&vec![]));
}

#[test]
fn modules_from_events() {
    let events = vec![
        start("node", vec![attr("path", "/mainloop/Recorder/outInfo/0/")]),
        start("attr", vec![attr("type", "string"), attr("key", "source")]),
        MetadataEvent::Characters("cam".to_string()),
        MetadataEvent::Other,
        start("attr", vec![attr("key", "sizeY"), attr("key", "sizeX")]),
        MetadataEvent::Characters("12".to_string()),
        start("other", vec![]),
        MetadataEvent::Characters("34".to_string()),
        start("node", vec![attr("path", "/mainloop/Recorder/outInfo/1/")]),
        MetadataEvent::Characters("ignored".to_string()),
        start("node", vec![attr("path", "/mainloop/Recorder/outInfo/2/")]),
        MetadataEvent::Malformed,
    ];
    let modules = collect_output_modules(&events);
    assert_eq!(modules.len(), 1);
    assert_eq!(modules[0].output_info.source.as_deref(), Some("cam"));
    assert_eq!(modules[0].output_info.size_x, Some(34));
    assert_eq!(modules[0].output_info.size_y, None);
}

#[test]
fn no_modules_without_events() {
    assert!(collect_output_modules(&vec![]).is_empty());
}

#[test]
fn closed_modules_stay_listed() {
    let events = vec![
        start("node", vec![attr("path", "/mainloop/Recorder/outInfo/0/")]),
        start("attr", vec![attr("key", "typeIdentifier")]),
        MetadataEvent::Characters("EVTS".to_string()),
        start("node", vec![attr("path", "/mainloop/Recorder/outInfo/1/")]),
        start("attr", vec![attr("key", "typeIdentifier")]),
        MetadataEvent::Characters("FRME".to_string()),
        start("node", vec![attr("path", "/mainloop/Recorder/outInfo/2/")]),
        MetadataEvent::Characters("late text".to_string()),
    ];
    let mut previous: Vec<String> = Vec::new();
    for n in 0..=events.len() {
        let prefix: Vec<MetadataEvent> = events[..n]
            .iter()
            .map(|e| match e {
                MetadataEvent::StartElement { name, attributes } => start(
                    name,
                    attributes.iter().map(|a| attr(&a.name, &a.value)).collect(),
                ),
                MetadataEvent::Characters(t) => MetadataEvent::Characters(t.clone()),
                MetadataEvent::Other => MetadataEvent::Other,
                MetadataEvent::Malformed => MetadataEvent::Malformed,
            })
            .collect();
        let names: Vec<String> = collect_output_modules(&prefix).into_iter().map(|m| m.output_name).collect();
        assert!(names.len() + 1 >= previous.len());
        if previous.len() > 1 {
            assert_eq!(&names[..previous.len() - 1], &previous[..previous.len() - 1]);
        }
        previous = names;
    }
    assert_eq!(previous, vec!["EVTS".to_string(), "FRME".to_string()]);
}

#[test]
fn unexpected_tags_in_order() {
    let events = metadata_events(SAMPLE);
    assert!(unexpected_tags_of(&events).is_empty());
    let events = metadata_events("<dv><a/><node/><b><attr/></b></dv>");
    assert_eq!(unexpected_tags_of(&events), vec!["a".to_string(), "b".to_string()]);
}
