use display_with_options::{
    format_with_options, with_options, DebugWithOptions, DisplayWithOptions, IndentOptions, Sink,
    WriteError,
};

#[test]
fn new_starts_with_nothing_accumulated() {
    let options = IndentOptions::new("\t");
    assert_eq!(options.full_indentation, "");
    assert_eq!(options.next_level, "\t");
}

#[test]
fn deeper_appends_one_unit() {
    let options = IndentOptions::new("  ").deeper();
    assert_eq!(options.full_indentation, "  ");
    let options = options.deeper();
    assert_eq!(options.full_indentation, "    ");
    assert_eq!(options.next_level, "  ");
}

#[test]
fn deeper_twice_matches_n_deeper_two() {
    let base = IndentOptions::new("ab").appending("-");
    assert_eq!(
        base.deeper().deeper().full_indentation,
        base.n_deeper(2).full_indentation
    );
}

#[test]
fn n_deeper_zero_changes_nothing() {
    let base = IndentOptions::new("  ").deeper();
    let copy = base.n_deeper(0);
    assert_eq!(copy.full_indentation, base.full_indentation);
    assert_eq!(copy.next_level, base.next_level);
}

#[test]
fn n_deeper_repeats_the_unit() {
    let options = IndentOptions::new(".").n_deeper(4);
    assert_eq!(options.full_indentation, "....");
}

#[test]
fn restart_is_idempotent() {
    let state = IndentOptions::new("  ").n_deeper(3).appending("x");
    let once = state.restart();
    let twice = state.restart().restart();
    assert_eq!(once.full_indentation, twice.full_indentation);
    assert_eq!(once.next_level, twice.next_level);
}

#[test]
fn restart_clears_but_keeps_the_unit() {
    let options = IndentOptions::new("  ").deeper().restart();
    assert_eq!(options.full_indentation, "");
    assert_eq!(options.next_level, "  ");
}

#[test]
fn with_next_switches_the_unit_only() {
    let options = IndentOptions::new("  ").deeper().with_next("\t");
    assert_eq!(options.full_indentation, "  ");
    assert_eq!(options.next_level, "\t");
}

#[test]
fn appending_adds_a_one_off_suffix() {
    let options = IndentOptions::new("  ").appending("| ");
    assert_eq!(options.full_indentation, "| ");
    assert_eq!(options.next_level, "  ");
    assert_eq!(options.deeper().full_indentation, "|   ");
}

#[test]
fn to_text_is_the_accumulated_indentation() {
    let options = IndentOptions::new("  ").deeper().appending("x");
    assert_eq!(options.to_text(), "  x");
}

#[test]
fn a_string_slice_renders_as_itself() {
    let options = IndentOptions::new("  ").deeper();
    assert_eq!(format_with_options("hello", &options), "hello");
    assert_eq!(with_options("hello", &options).to_text(), "hello");
}

struct Tag {
    id: u32,
}

impl DebugWithOptions<u32> for Tag {
    fn fmt<W: Sink + ?Sized>(&self, f: &mut W, options: &u32) -> Result<(), WriteError> {
        f.write_str("Tag(")?;
        let mut n = self.id + options;
        let mut digits = String::new();
        loop {
            digits.insert(0, (b'0' + (n % 10) as u8) as char);
            n /= 10;
            if n == 0 {
                break;
            }
        }
        f.write_str(digits.as_str())?;
        f.write_char(')')
    }
}

#[test]
fn debug_rendering_goes_through_the_wrapper() {
    let tag = Tag { id: 40 };
    let offset: u32 = 2;
    assert_eq!(with_options(&tag, &offset).to_debug_text(), "Tag(42)");
}
