use tracktui::input::accepts;
use tracktui::selection::{clamp_row, select_next_row, select_previous_row};
use tracktui::{Decimal, InputBuffer, InputField, Point, Status};

fn typed(buffer: &mut InputBuffer, text: &str) {
    for c in text.chars() {
        buffer.push_char(c);
    }
}

#[test]
fn a_new_buffer_is_empty_with_x_active() {
    let buffer = InputBuffer::new();
    assert_eq!(buffer.active_field(), InputField::X);
    assert_eq!(buffer.x_text(), "");
    assert_eq!(buffer.y_text(), "");
    assert_eq!(buffer.parse(), None);
}

#[test]
fn fields_accept_digits_points_and_minus_only() {
    for c in "0123456789.-".chars() {
        assert!(accepts(c), "{:?}", c);
    }
    for c in "+e, /:aZ\u{663}\n".chars() {
        assert!(!accepts(c), "{:?}", c);
    }
    let mut buffer = InputBuffer::new();
    typed(&mut buffer, "a1+b-.x2 ");
    assert_eq!(buffer.x_text(), "1-.2");
    assert_eq!(buffer.y_text(), "");
}

#[test]
fn a_field_takes_five_characters() {
    let mut buffer = InputBuffer::new();
    typed(&mut buffer, "1234567");
    assert_eq!(buffer.x_text(), "12345");
    buffer.cycle_field();
    typed(&mut buffer, "-9.87654");
    assert_eq!(buffer.y_text(), "-9.87");
    assert_eq!(buffer.x_text(), "12345");
}

#[test]
fn backspace_takes_back_the_last_character() {
    let mut buffer = InputBuffer::new();
    buffer.backspace();
    assert_eq!(buffer.x_text(), "");
    typed(&mut buffer, "12");
    buffer.backspace();
    assert_eq!(buffer.x_text(), "1");
    buffer.backspace();
    buffer.backspace();
    assert_eq!(buffer.x_text(), "");
    assert_eq!(buffer.y_text(), "");
}

#[test]
fn cycling_and_focusing_keep_the_texts() {
    let mut buffer = InputBuffer::new();
    typed(&mut buffer, "1");
    buffer.cycle_field();
    assert_eq!(buffer.active_field(), InputField::Y);
    typed(&mut buffer, "2");
    buffer.cycle_field();
    assert_eq!(buffer.active_field(), InputField::X);
    buffer.focus(InputField::Y);
    assert_eq!(buffer.active_field(), InputField::Y);
    buffer.focus(InputField::Y);
    assert_eq!(buffer.active_field(), InputField::Y);
    assert_eq!(buffer.x_text(), "1");
    assert_eq!(buffer.y_text(), "2");
}

#[test]
fn parse_needs_a_number_in_both_fields() {
    let mut buffer = InputBuffer::new();
    typed(&mut buffer, "1.5");
    assert_eq!(buffer.parse(), None);
    buffer.cycle_field();
    typed(&mut buffer, "-");
    assert_eq!(buffer.parse(), None);
    typed(&mut buffer, "2");
    assert_eq!(buffer.parse(), Some(Point { x: Decimal { units: 15_000 }, y: Decimal { units: -20_000 } }));
    typed(&mut buffer, "-");
    assert_eq!(buffer.parse(), None);
}

#[test]
fn clear_empties_both_fields() {
    let mut buffer = InputBuffer::new();
    typed(&mut buffer, "1");
    buffer.cycle_field();
    typed(&mut buffer, "2");
    buffer.clear();
    assert_eq!(buffer.x_text(), "");
    assert_eq!(buffer.y_text(), "");
    assert_eq!(buffer.active_field(), InputField::X);
}

#[test]
fn next_row_wraps_from_the_last_row_to_the_first() {
    assert_eq!(select_next_row(None, 3), Some(0));
    assert_eq!(select_next_row(Some(0), 3), Some(1));
    assert_eq!(select_next_row(Some(1), 3), Some(2));
    assert_eq!(select_next_row(Some(2), 3), Some(0));
    assert_eq!(select_next_row(Some(0), 1), Some(0));
    assert_eq!(select_next_row(Some(7), 3), Some(0));
}

#[test]
fn previous_row_wraps_from_the_first_row_to_the_last() {
    assert_eq!(select_previous_row(None, 3), Some(0));
    assert_eq!(select_previous_row(Some(0), 3), Some(2));
    assert_eq!(select_previous_row(Some(2), 3), Some(1));
    assert_eq!(select_previous_row(Some(1), 3), Some(0));
    assert_eq!(select_previous_row(Some(0), 1), Some(0));
    assert_eq!(select_previous_row(Some(7), 3), Some(2));
}

#[test]
fn moves_in_an_empty_table_do_nothing() {
    assert_eq!(select_next_row(None, 0), None);
    assert_eq!(select_previous_row(None, 0), None);
    assert_eq!(select_next_row(Some(2), 0), Some(2));
    assert_eq!(select_previous_row(Some(2), 0), Some(2));
}

#[test]
fn as_many_moves_as_rows_lead_back() {
    for len in 1..6usize {
        for start in 0..len {
            let mut down = Some(start);
            let mut up = Some(start);
            for _ in 0..len {
                down = select_next_row(down, len);
                up = select_previous_row(up, len);
            }
            assert_eq!(down, Some(start));
            assert_eq!(up, Some(start));
        }
    }
}

#[test]
fn clamp_row_fits_the_selection_to_fewer_rows() {
    assert_eq!(clamp_row(None, 3), None);
    assert_eq!(clamp_row(Some(1), 3), Some(1));
    assert_eq!(clamp_row(Some(3), 3), Some(2));
    assert_eq!(clamp_row(Some(0), 0), None);
}

#[test]
fn status_texts() {
    assert_eq!(Status::Idle.text(), "");
    assert!(Status::Idle.is_idle());
    assert!(!Status::InvalidInput.is_idle());
    assert_eq!(Status::InvalidInput.text(), "Error: enter valid numbers for x and y");
    let p = Point { x: Decimal { units: 15_000 }, y: Decimal { units: -22_250 } };
    assert_eq!(Status::Inserted(p).text(), "Inserted point (1.50, -2.23)");
    assert_eq!(Status::LoadFailed("no such file".to_string()).text(), "Could not load data.csv: no such file");
    assert_eq!(
        Status::SaveFailed("disk full".to_string()).text(),
        "Could not write to data.csv (Press any key to exit): disk full"
    );
}
