use display_with_options::{
    with_options, DisplayWithOptions, IndentOptions, IndentingFormatter, Sink, WriteError,
};

struct Node {
    name: String,
    children: Vec<Box<Node>>,
}

impl<'a> DisplayWithOptions<IndentOptions<'a>> for Node {
    fn fmt<W: Sink + ?Sized>(
        &self,
        f: &mut W,
        options: &IndentOptions<'a>,
    ) -> Result<(), WriteError> {
        f.write_str(options.full_indentation.as_str())?;
        f.write_str(self.name.as_str())?;
        f.write_char('\n')?;

        let options = options.deeper();
        let mut f = IndentingFormatter::new(f, options.full_indentation.as_str());
        let options = options.restart();

        for child in self.children.iter() {
            let sink: &mut dyn Sink = &mut f;
            child.as_ref().fmt(sink, &options)?;
        }

        Ok(())
    }
}

fn node(name: &str, children: Vec<Box<Node>>) -> Box<Node> {
    Box::new(Node {
        name: name.to_string(),
        children,
    })
}

#[test]
fn indent_twice() {
    let tree = Node {
        name: "A".to_string(),
        children: vec![
            Box::new(Node {
                name: "B".to_string(),
                children: vec![Box::new(Node {
                    name: "C".to_string(),
                    children: vec![],
                })],
            }),
            Box::new(Node {
                name: "D".to_string(),
                children: vec![],
            }),
        ],
    };

    let tree_formatted = with_options(
        &tree,
        &IndentOptions {
            full_indentation: String::new(),
            next_level: "    ",
        },
    )
    .to_text();

    let reference = "A\n    B\n        C\n    D\n";

    assert_eq!(reference, tree_formatted.as_str());
}

#[test]
fn linear_chain_one_unit_per_level() {
    let tree = node("a", vec![node("b", vec![node("c", vec![node("d", vec![])])])]);
    let options = IndentOptions::new("..");
    let text = display_with_options::format_with_options(tree.as_ref(), &options);
    assert_eq!(text, "a\n..b\n....c\n......d\n");
}

#[test]
fn empty_lines_are_not_padded() {
    let mut out = String::new();
    let mut f = IndentingFormatter::new(&mut out, "    ");
    f.write_str("\n\n").unwrap();
    assert_eq!(out, "\n\n");
}

#[test]
fn chunk_boundaries_do_not_matter() {
    let mut whole = String::new();
    let mut f = IndentingFormatter::new(&mut whole, "  ");
    f.write_str("A\nB").unwrap();

    let mut pieces = String::new();
    let mut g = IndentingFormatter::new(&mut pieces, "  ");
    g.write_str("A\n").unwrap();
    g.write_str("B").unwrap();

    assert_eq!(whole, "  A\n  B");
    assert_eq!(whole, pieces);
}

#[test]
fn fresh_line_flag_tracks_the_last_character() {
    let mut out = String::new();
    let mut f = IndentingFormatter::new(&mut out, "  ");
    assert!(f.is_fresh_line);
    f.write_str("x\n").unwrap();
    assert!(f.is_fresh_line);
    f.write_str("y").unwrap();
    assert!(!f.is_fresh_line);
    f.write_str("").unwrap();
    assert!(!f.is_fresh_line);
}

#[test]
fn single_characters_are_indented_like_chunks() {
    let mut out = String::new();
    let mut f = IndentingFormatter::new(&mut out, "> ");
    f.write_char('a').unwrap();
    f.write_char('\n').unwrap();
    f.write_char('\n').unwrap();
    f.write_char('b').unwrap();
    assert_eq!(out, "> a\n\n> b");
}

#[test]
fn indentation_resumes_mid_line() {
    let mut out = String::new();
    let mut f = IndentingFormatter::new(&mut out, "  ");
    f.write_str("one").unwrap();
    f.write_str(" two\nthree").unwrap();
    assert_eq!(out, "  one two\n  three");
}

struct FailingSink {
    received: String,
    calls: usize,
    fail_from: usize,
}

impl FailingSink {
    fn failing_on(fail_from: usize) -> FailingSink {
        FailingSink {
            received: String::new(),
            calls: 0,
            fail_from,
        }
    }
}

impl Sink for FailingSink {
    fn write_str(&mut self, s: &str) -> Result<(), WriteError> {
        self.calls += 1;
        if self.calls >= self.fail_from {
            return Err(WriteError);
        }
        self.received.push_str(s);
        Ok(())
    }

    fn write_char(&mut self, c: char) -> Result<(), WriteError> {
        self.calls += 1;
        if self.calls >= self.fail_from {
            return Err(WriteError);
        }
        self.received.push(c);
        Ok(())
    }
}

#[test]
fn sink_failure_stops_the_render() {
    let tree = node("A", vec![node("B", vec![]), node("D", vec![])]);
    let options = IndentOptions::new("    ");

    let mut sink = FailingSink::failing_on(2);
    let dyn_sink: &mut dyn Sink = &mut sink;
    let result = tree.as_ref().fmt(dyn_sink, &options);

    assert!(result.is_err());
    assert_eq!(sink.calls, 2);
}

#[test]
fn writer_forwards_the_sink_failure_unchanged() {
    let mut sink = FailingSink::failing_on(3);
    let mut f = IndentingFormatter::new(&mut sink, "  ");
    let result = f.write_str("ab\ncd");
    assert_eq!(result, Err(WriteError));
    assert_eq!(sink.calls, 3);
    assert_eq!(sink.received, "  a");
}
