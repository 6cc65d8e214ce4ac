//! What the screens show, apart from drawing: the rows of the connection
//! form, the text of its fields, where the cursor stands, and the sizes of
//! the modals.
use vstd::prelude::*;

use crate::layout::{Rect, padded_rect, sat_sub};
use crate::model::{AuthKind, Field, MasterField, TransferDirection, TransferStep};
use crate::text::{from_chars, to_chars, truncate_text, truncated};

verus! {

/// Width of the labels of form fields.
pub const LABEL_WIDTH: usize = 9;

/// Share of the screen width the connection form takes, in percent.
pub const MODAL_WIDTH_PERCENT: u16 = 70;

/// Share of the screen height the connection form takes at most, in percent.
pub const MODAL_MAX_HEIGHT_PERCENT: u16 = 70;

/// Narrowest width of the connection form.
pub const MODAL_MIN_WIDTH: u16 = 30;

/// `a * b` as a `u16` that stops at its largest value.
pub open spec fn sat_mul_u16(a: u16, b: u16) -> nat {
    if a * b > u16::MAX {
        u16::MAX as nat
    } else {
        (a * b) as nat
    }
}

fn saturating_mul_u16(a: u16, b: u16) -> (r: u16)
    ensures
        r == sat_mul_u16(a, b),
{
    assert((a as u32) * (b as u32) <= 65535 * 65535) by (nonlinear_arith)
        requires
            a <= 65535,
            b <= 65535,
    ;
    let wide = (a as u32) * (b as u32);
    if wide > 65535 {
        65535
    } else {
        wide as u16
    }
}

/// The width of the connection form on a screen `width` wide: its share of
/// the screen, within two cells of the edge, and at least the narrowest.
pub open spec fn spec_modal_width(width: u16) -> nat {
    let share = sat_mul_u16(width, MODAL_WIDTH_PERCENT) / 100;
    let bounded = if share < sat_sub(width as nat, 2) { share } else { sat_sub(width as nat, 2) };
    if bounded > MODAL_MIN_WIDTH { bounded } else { MODAL_MIN_WIDTH as nat }
}

/// The width of the connection form.
pub fn modal_width(width: u16) -> (r: u16)
    ensures
        r == spec_modal_width(width),
{
    let share = saturating_mul_u16(width, MODAL_WIDTH_PERCENT) / 100;
    let edge = if width >= 2 { width - 2 } else { 0 };
    let bounded = if share < edge { share } else { edge };
    if bounded > MODAL_MIN_WIDTH { bounded } else { MODAL_MIN_WIDTH }
}

/// The characters left for a field value in a form `area_width` wide: the
/// border and padding, the focus marker, the label and its colon go.
pub open spec fn spec_value_width(area_width: u16) -> nat {
    sat_sub(sat_sub(area_width as nat, 4), (2 + LABEL_WIDTH + 2) as nat)
}

/// The characters left for a field value in a form `area_width` wide.
pub fn value_width(area_width: u16) -> (r: usize)
    ensures
        r == spec_value_width(area_width),
{
    let content = if area_width >= 4 { area_width - 4 } else { 0 };
    let used: u16 = 13;
    if content >= used {
        (content - used) as usize
    } else {
        0
    }
}

/// The height of the connection form on a screen `height` high for
/// `desired` rows: at least ten, at most its share of the screen (or ten),
/// and within two rows of the edge.
pub open spec fn spec_modal_area_height(desired: u16, height: u16) -> nat {
    let max_height = sat_mul_u16(height, MODAL_MAX_HEIGHT_PERCENT) / 100;
    let floor: nat = if desired > 10 { desired as nat } else { 10 };
    let ceiling: nat = if max_height > 10 { max_height } else { 10 };
    let h = if floor < ceiling { floor } else { ceiling };
    if h < sat_sub(height as nat, 2) { h } else { sat_sub(height as nat, 2) }
}

/// The height of the connection form.
pub fn modal_area_height(desired: u16, height: u16) -> (r: u16)
    ensures
        r == spec_modal_area_height(desired, height),
{
    let max_height = saturating_mul_u16(height, MODAL_MAX_HEIGHT_PERCENT) / 100;
    let floor = if desired > 10 { desired } else { 10 };
    let ceiling = if max_height > 10 { max_height } else { 10 };
    let h = if floor < ceiling { floor } else { ceiling };
    let edge = if height >= 2 { height - 2 } else { 0 };
    if h < edge { h } else { edge }
}

/// The rows of the connection form: the four fields every form shows, the
/// key path and password where the choice asks for them, a blank row, the
/// two buttons, and two rows for a message where there is one.
#[derive(Debug, Clone, Copy, PartialEq, Eq, Structural)]
pub struct FormRows {
    pub name: usize,
    pub user: usize,
    pub host: usize,
    pub auth: usize,
    pub key_path: Option<usize>,
    pub password: Option<usize>,
    pub test: usize,
    pub save: usize,
    pub lines: usize,
}

/// The rows of the connection form for an authentication choice.
pub open spec fn spec_form_rows(kind: AuthKind, has_feedback: bool) -> FormRows {
    let key_path: Option<usize> = if kind == AuthKind::PasswordOnly { None } else { Some(4) };
    let password: Option<usize> = match kind {
        AuthKind::PasswordOnly => Some(4),
        AuthKind::PrivateKey => None,
        AuthKind::PrivateKeyWithPassword => Some(5),
    };
    let fields: usize = if kind == AuthKind::PrivateKeyWithPassword { 6 } else { 5 };
    FormRows {
        name: 0,
        user: 1,
        host: 2,
        auth: 3,
        key_path,
        password,
        test: (fields + 1) as usize,
        save: (fields + 2) as usize,
        lines: (fields + 3 + if has_feedback { 2usize } else { 0usize }) as usize,
    }
}

/// The rows of the connection form.
pub fn form_rows(kind: AuthKind, has_feedback: bool) -> (r: FormRows)
    ensures
        r == spec_form_rows(kind, has_feedback),
{
    let key_path = match kind {
        AuthKind::PasswordOnly => None,
        _ => Some(4),
    };
    let password = match kind {
        AuthKind::PasswordOnly => Some(4),
        AuthKind::PrivateKey => None,
        AuthKind::PrivateKeyWithPassword => Some(5),
    };
    let fields: usize = match kind {
        AuthKind::PrivateKeyWithPassword => 6,
        _ => 5,
    };
    FormRows {
        name: 0,
        user: 1,
        host: 2,
        auth: 3,
        key_path,
        password,
        test: fields + 1,
        save: fields + 2,
        lines: fields + 3 + if has_feedback { 2 } else { 0 },
    }
}

/// The row of the focused field, where the form shows it.
pub open spec fn spec_active_row(rows: FormRows, field: Field) -> Option<usize> {
    match field {
        Field::Name => Some(rows.name),
        Field::User => Some(rows.user),
        Field::Host => Some(rows.host),
        Field::AuthType => Some(rows.auth),
        Field::KeyPath => rows.key_path,
        Field::Password => rows.password,
        Field::ActionTest => Some(rows.test),
        Field::ActionSave => Some(rows.save),
    }
}

/// The row of the focused field.
pub fn active_row(rows: FormRows, field: Field) -> (r: Option<usize>)
    ensures
        r == spec_active_row(rows, field),
{
    match field {
        Field::Name => Some(rows.name),
        Field::User => Some(rows.user),
        Field::Host => Some(rows.host),
        Field::AuthType => Some(rows.auth),
        Field::KeyPath => rows.key_path,
        Field::Password => rows.password,
        Field::ActionTest => Some(rows.test),
        Field::ActionSave => Some(rows.save),
    }
}

/// What a field shows of its value: a star per character where it is
/// masked and not empty, cut to the width.
pub open spec fn spec_field_display(value: Seq<char>, mask: bool, max_width: nat) -> Seq<char> {
    let shown = if mask && value.len() > 0 {
        Seq::new(value.len(), |i: int| '*')
    } else {
        value
    };
    truncated(shown, max_width)
}

/// What a field shows of its value.
pub fn field_display(value: &str, mask: bool, max_width: usize) -> (r: String)
    ensures
        r@ == spec_field_display(value@, mask, max_width as nat),
{
    let chars = to_chars(value);
    if mask && chars.len() > 0 {
        let mut stars: Vec<char> = Vec::new();
        let mut i: usize = 0;
        while i < chars.len()
            invariant
                i <= chars@.len(),
                stars@ == Seq::new(i as nat, |k: int| '*'),
            decreases chars@.len() - i,
        {
            stars.push('*');
            i = i + 1;
            assert(stars@ =~= Seq::new(i as nat, |k: int| '*'));
        }
        assert(chars@.len() == value@.len());
        let shown = from_chars(stars.as_slice());
        truncate_text(shown.as_str(), max_width)
    } else {
        truncate_text(value, max_width)
    }
}

/// A label padded with spaces to `width` characters, then a colon and a
/// space.
pub open spec fn spec_padded_label(label: Seq<char>, width: nat) -> Seq<char> {
    let pad: nat = if label.len() < width { (width - label.len()) as nat } else { 0 };
    label + Seq::new(pad, |i: int| ' ') + seq![':', ' ']
}

/// A label padded to `width` characters, then a colon and a space.
pub fn padded_label(label: &str, width: usize) -> (r: String)
    ensures
        r@ == spec_padded_label(label@, width as nat),
{
    let mut chars = to_chars(label);
    let ghost base = chars@;
    let len = chars.len();
    let pad = if len < width { width - len } else { 0 };
    let mut i: usize = 0;
    while i < pad
        invariant
            i <= pad,
            chars@ == base + Seq::new(i as nat, |k: int| ' '),
        decreases pad - i,
    {
        chars.push(' ');
        i = i + 1;
        assert(chars@ =~= base + Seq::new(i as nat, |k: int| ' '));
    }
    chars.push(':');
    chars.push(' ');
    assert(chars@ =~= base + Seq::new(pad as nat, |k: int| ' ') + seq![':', ' ']);
    from_chars(chars.as_slice())
}

/// The marker before a form row: an arrow on the focused one.
pub fn focus_marker(active: bool) -> (r: &'static str)
    ensures
        active ==> r@ == "> "@,
        !active ==> r@ == "  "@,
{
    if active { "> " } else { "  " }
}

/// Where the text cursor of a form stands: on row `row` of an area that
/// scrolled by `scroll` rows, after the marker, the label and `col`
/// characters; nowhere when the row is scrolled out of the area.
pub open spec fn spec_cursor_position(area: Rect, scroll: nat, row: Option<usize>, col: nat) -> Option<(u16, u16)> {
    match row {
        None => None,
        Some(r) => if r < scroll || r - scroll >= area.height {
            None
        } else {
            Some(
                (
                    (area.x + 2 + LABEL_WIDTH + 2 + col) as u16,
                    (area.y + r - scroll) as u16,
                ),
            )
        },
    }
}

/// Where the text cursor of a form stands.
pub fn cursor_position(area: Rect, scroll: usize, row: Option<usize>, col: usize) -> (r: Option<(
    u16,
    u16,
)>)
    requires
        area.x + 2 + LABEL_WIDTH + 2 + col <= u16::MAX,
        area.y + area.height <= u16::MAX,
    ensures
        r == spec_cursor_position(area, scroll as nat, row, col as nat),
{
    let r = match row {
        Some(r) => r,
        None => {
            return None;
        },
    };
    if r < scroll {
        return None;
    }
    let visible = r - scroll;
    if visible >= area.height as usize {
        return None;
    }
    let x = area.x + 13 + col as u16;
    let y = area.y + visible as u16;
    Some((x, y))
}

/// The marker before a saved connection: `! ` after a failed attempt,
/// unless it is connected.
pub fn saved_row_marker(connected: bool, has_error: bool) -> (r: &'static str)
    ensures
        !connected && has_error ==> r@ == "! "@,
        connected || !has_error ==> r@ == "  "@,
{
    if connected {
        "  "
    } else if has_error {
        "! "
    } else {
        "  "
    }
}

/// The commands under the saved connections; the connect command cancels
/// a connection that is open.
pub fn connection_commands(selected_connected: bool) -> (r: &'static str)
    ensures
        selected_connected ==> r@ == "(n)ew | (e)dit | (c)ancel | (x)delete"@,
        !selected_connected ==> r@ == "(n)ew | (e)dit | (c)onnect | (x)delete"@,
{
    if selected_connected {
        "(n)ew | (e)dit | (c)ancel | (x)delete"
    } else {
        "(n)ew | (e)dit | (c)onnect | (x)delete"
    }
}

/// Where a popup's body goes: inside the border and a padding cell, below
/// the title and its rule, where there is room for them.
pub open spec fn spec_popup_body(area: Rect) -> Rect {
    let inner = Rect {
        x: (area.x + 1) as u16,
        y: (area.y + 1) as u16,
        width: sat_sub(area.width as nat, 2) as u16,
        height: sat_sub(area.height as nat, 2) as u16,
    };
    if inner.height < 2 {
        inner
    } else {
        Rect { y: (inner.y + 2) as u16, height: (inner.height - 2) as u16, ..inner }
    }
}

/// Where a popup's body goes.
pub fn popup_body(area: Rect) -> (r: Rect)
    requires
        area.x + 1 <= u16::MAX,
        area.y + 3 <= u16::MAX,
    ensures
        r == spec_popup_body(area),
{
    let inner = padded_rect(area, 1);
    if inner.height < 2 {
        return inner;
    }
    Rect { x: inner.x, y: inner.y + 2, width: inner.width, height: inner.height - 2 }
}

/// Title and key help of the local picker for the step of a transfer.
pub fn file_picker_labels(transfer: Option<(TransferDirection, TransferStep)>) -> (r: (&'static str, &'static str))
    ensures
        transfer == Some((TransferDirection::Upload, TransferStep::PickSource)) ==> r.0@
            == "Pick file or folder on THIS host to upload"@ && r.1@
            == "Enter to open, S to select folder, Backspace to up, Esc to cancel"@,
        transfer == Some((TransferDirection::Download, TransferStep::PickTarget)) ==> r.0@
            == "Pick target folder"@ && r.1@
            == "Enter to open, S to select folder, B to go back to source, Backspace to up, Esc to cancel"@,
        transfer != Some((TransferDirection::Upload, TransferStep::PickSource)) && transfer != Some(
            (TransferDirection::Download, TransferStep::PickTarget),
        ) ==> r.0@ == "Pick key file"@ && r.1@
            == "Enter to open/select, Backspace to up, Esc to cancel"@,
{
    match transfer {
        Some((TransferDirection::Upload, TransferStep::PickSource)) => (
            "Pick file or folder on THIS host to upload",
            "Enter to open, S to select folder, Backspace to up, Esc to cancel",
        ),
        Some((TransferDirection::Download, TransferStep::PickTarget)) => (
            "Pick target folder",
            "Enter to open, S to select folder, B to go back to source, Backspace to up, Esc to cancel",
        ),
        _ => ("Pick key file", "Enter to open/select, Backspace to up, Esc to cancel"),
    }
}

/// Title and key help of the remote picker for the step of a transfer.
pub fn remote_picker_labels(transfer: Option<(TransferDirection, TransferStep)>) -> (r: (&'static str, &'static str))
    ensures
        transfer == Some((TransferDirection::Download, TransferStep::PickSource)) ==> r.0@
            == "Pick remote source"@ && r.1@
            == "Enter to open, S to select folder, Backspace to up, Esc to cancel"@,
        transfer == Some((TransferDirection::Upload, TransferStep::PickTarget)) ==> r.0@
            == "Pick where to save the file or folder on the REMOTE host"@ && r.1@
            == "Enter to open, S to select folder, B to go back to source, Backspace to up, Esc to cancel"@,
        transfer != Some((TransferDirection::Download, TransferStep::PickSource)) && transfer != Some(
            (TransferDirection::Upload, TransferStep::PickTarget),
        ) ==> r.0@ == "Pick remote target"@ && r.1@
            == "Enter to open, S to select folder, Backspace to up, Esc to cancel"@,
{
    match transfer {
        Some((TransferDirection::Download, TransferStep::PickSource)) => (
            "Pick remote source",
            "Enter to open, S to select folder, Backspace to up, Esc to cancel",
        ),
        Some((TransferDirection::Upload, TransferStep::PickTarget)) => (
            "Pick where to save the file or folder on the REMOTE host",
            "Enter to open, S to select folder, B to go back to source, Backspace to up, Esc to cancel",
        ),
        _ => ("Pick remote target", "Enter to open, S to select folder, Backspace to up, Esc to cancel"),
    }
}

/// The title of the connection form: "Edit connection" while a saved
/// connection is edited, "New connection" otherwise.
pub fn connection_form_title(editing: bool) -> (r: &'static str)
    ensures
        r@ == (if editing {
            "Edit connection"@
        } else {
            "New connection"@
        }),
{
    if editing {
        "Edit connection"
    } else {
        "New connection"
    }
}

/// The characters left for a value in the master password form, whose
/// text area is `width` wide: what is left beside the marker, the label
/// and the gap.
pub fn master_value_width(width: u16) -> (r: usize)
    ensures
        r as nat == sat_sub(width as nat, (2 + LABEL_WIDTH + 2) as nat),
{
    let taken: u16 = (2 + LABEL_WIDTH + 2) as u16;
    if width >= taken {
        (width - taken) as usize
    } else {
        0
    }
}

/// The row and column of the cursor in the master password form: the
/// field's row (current, new, confirmation) and the length of its text;
/// none on the save action.
pub fn master_cursor_target(field: MasterField, current_len: usize, new_len: usize, confirm_len: usize) -> (r: Option<(usize, usize)>)
    ensures
        r == match field {
            MasterField::Current => Some((0usize, current_len)),
            MasterField::New => Some((1usize, new_len)),
            MasterField::Confirm => Some((2usize, confirm_len)),
            MasterField::ActionSave => None::<(usize, usize)>,
        },
{
    match field {
        MasterField::Current => Some((0, current_len)),
        MasterField::New => Some((1, new_len)),
        MasterField::Confirm => Some((2, confirm_len)),
        MasterField::ActionSave => None,
    }
}

} // verus!
