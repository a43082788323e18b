use iris::blend::BlendMode;
use iris::ora::{escape, from_ora, to_ora, visibility, OraError, OraNode, StackParser, XmlAttr, XmlEvent};

#[test]
fn core_ops_round_trip() {
    for mode in [
        BlendMode::Normal,
        BlendMode::Multiply,
        BlendMode::Screen,
        BlendMode::Difference,
        BlendMode::Subtract,
        BlendMode::Divide,
    ] {
        assert_eq!(from_ora(to_ora(mode)), mode, "round-trip failed for {mode:?}");
    }
}

#[test]
fn unknown_op_is_normal() {
    assert_eq!(from_ora("svg:nonsense"), BlendMode::Normal);
}

#[test]
fn krita_aliases_parse() {
    assert_eq!(from_ora("krita:add"), BlendMode::LinearDodge);
    assert_eq!(from_ora("krita:darken_color"), BlendMode::DarkerColor);
    assert_eq!(to_ora(BlendMode::DarkerColor), "krita:darker_color");
}

#[test]
fn messages_render() {
    assert!(OraError::BadMimetype.message().contains("OpenRaster"));
    assert!(OraError::MissingLayerData("data/3.png".into()).message().contains("data/3.png"));
}

#[test]
fn escape_replaces_the_five_entities() {
    assert_eq!(escape("a&b<c>\"d'"), "a&amp;b&lt;c&gt;&quot;d&apos;");
    assert_eq!(escape("plain"), "plain");
    assert_eq!(visibility(true), "visible");
    assert_eq!(visibility(false), "hidden");
}

fn attr(k: &str, v: &str) -> XmlAttr {
    XmlAttr { key: k.into(), value: v.into() }
}

fn start(name: &str, attrs: Vec<XmlAttr>) -> XmlEvent {
    XmlEvent::Start { name: name.into(), attrs }
}

fn end(name: &str) -> XmlEvent {
    XmlEvent::End { name: name.into() }
}

#[test]
fn parses_nested_stacks() {
    let events = vec![
        start("image", vec![attr("w", " 64 "), attr("h", "32")]),
        start("stack", vec![]),
        start("stack", vec![attr("name", "Group"), attr("visibility", "hidden")]),
        start("layer", vec![attr("name", "Ink"), attr("src", "data/0.png"), attr("x", "-3"), attr("y", "4")]),
        end("layer"),
        end("stack"),
        start("layer", vec![attr("name", "Paper"), attr("src", "data/1.png"), attr("composite-op", "svg:multiply")]),
        end("layer"),
        end("stack"),
        end("image"),
        XmlEvent::Eof,
    ];
    let mut p = StackParser::new();
    for ev in events {
        if !p.feed(ev) {
            break;
        }
    }
    let img = p.finish().expect("parse");
    assert_eq!((img.width, img.height), (64, 32));
    assert_eq!(img.children.len(), 2);
    match &img.children[0] {
        OraNode::Stack(s) => {
            assert_eq!(s.name, "Group");
            assert!(!s.visible);
            assert_eq!(s.composite_op, "svg:src-over");
            match &s.children[0] {
                OraNode::Layer(l) => {
                    assert_eq!((l.name.as_str(), l.src.as_str(), l.x, l.y), ("Ink", "data/0.png", -3, 4));
                    assert!(l.visible);
                    assert!(l.opacity.is_none());
                },
                OraNode::Stack(_) => panic!("expected a layer"),
            }
        },
        OraNode::Layer(_) => panic!("expected a group"),
    }
    match &img.children[1] {
        OraNode::Layer(l) => assert_eq!(l.composite_op, "svg:multiply"),
        OraNode::Stack(_) => panic!("expected a layer"),
    }
}

#[test]
fn missing_dimensions_are_an_error() {
    let mut p = StackParser::new();
    assert!(p.feed(start("image", vec![attr("w", "abc"), attr("h", "5")])));
    assert!(!p.feed(XmlEvent::Eof));
    assert!(matches!(p.finish(), Err(OraError::MissingImageDimensions)));
}

#[test]
fn reader_errors_stop_the_parse() {
    let mut p = StackParser::new();
    assert!(p.feed(start("image", vec![attr("w", "1"), attr("h", "1")])));
    assert!(!p.feed(XmlEvent::Error("boom".into())));
    match p.finish() {
        Err(OraError::Xml(m)) => assert_eq!(m, "boom"),
        _ => panic!("expected an XML error"),
    }
}

#[test]
fn parse_stack_reads_nested_text() {
    let xml = "<?xml version='1.0' encoding='UTF-8'?>\n<image version=\"0.0.3\" w=\"4\" h=\"3\">\n  <stack>\n    <stack name=\"G\" visibility=\"hidden\">\n      <layer name=\"a&amp;b\" src=\"data/0.png\" x=\"-2\" y=\"5\"/>\n    </stack>\n    <layer name=\"top\" src=\"data/1.png\"/>\n  </stack>\n</image>\n";
    let img = iris::ora::parse_stack(xml).expect("parses");
    assert_eq!((img.width, img.height), (4, 3));
    assert_eq!(img.children.len(), 2);
    match &img.children[0] {
        OraNode::Stack(s) => {
            assert_eq!(s.name, "G");
            assert!(!s.visible);
            assert_eq!(s.children.len(), 1);
            match &s.children[0] {
                OraNode::Layer(l) => {
                    assert_eq!(l.name, "a&amp;b");
                    assert_eq!((l.x, l.y), (-2, 5));
                },
                _ => panic!("expected a layer"),
            }
        },
        _ => panic!("expected a stack"),
    }
    match &img.children[1] {
        OraNode::Layer(l) => assert_eq!(l.src, "data/1.png"),
        _ => panic!("expected a layer"),
    }
}

#[test]
fn parse_stack_without_dimensions_fails() {
    assert!(matches!(iris::ora::parse_stack("<image><stack/></image>"), Err(OraError::MissingImageDimensions)));
    assert!(matches!(iris::ora::parse_stack("<image w=\"1\" h=\"1\"><stack></image>"), Err(OraError::Xml(_))));
}
