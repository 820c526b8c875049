use vstd::prelude::*;
use vstd::string::StrSliceExecFns;
use crate::draw::{emit, emit_all, ops, print_str, Attribute, Color, DrawCommand, DrawOp};
use crate::pages::home::{draw_footer, draw_home_header, footer_ops, home_header_ops, SEPARATOR};
use crate::text::{
    char_index_at, i32_decimal, utf8_len, i32_to_string, lemma_boundary_before_end, on_char_boundary,
    prefix_before, string_byte_len, string_is_char_boundary, suffix_from,
};
use super::typing::{GeoIPResponse, InputModel, InputState};

verus! {

pub const GEOIP_TITLE: &'static str = "# [home/geoip] GEO IP Tracker                                                            #";
pub const GEOIP_FOOTER: &'static str = "#    [q] Quit [h] Home [Enter] Search || Check where the IP originated!        #";
pub const INPUT_PROMPT: &'static str = "Enter IP or domain: ";
pub const FETCH_NOTE: &'static str = "This may take a few seconds.";
pub const HINT_LINE_1: &'static str = "Enter an IP address or domain name and press Enter to lookup GeoIP information.";
pub const HINT_LINE_2: &'static str = "Leave empty to lookup your current IP address.";

/// Frames of the spinner beside "Loading", one per 100 ms.
pub const LOADING_FRAMES: [&'static str; 10] = ["⠋", "⠙", "⠹", "⠸", "⠼", "⠴", "⠦", "⠧", "⠇", "⠏"];
/// Frames of the spinner beside the fetch message, one per 150 ms.
pub const FETCH_FRAMES: [&'static str; 4] = ["|", "/", "-", "\\"];

pub open spec fn geoip_header_ops() -> Seq<DrawOp> {
    seq![
        DrawOp::MoveTo(0, 8),
        DrawOp::Print(GEOIP_TITLE@),
        DrawOp::MoveTo(0, 9),
        DrawOp::Print(SEPARATOR@),
        DrawOp::Attribute(Attribute::Reset),
    ]
}

pub fn draw_geoip_header() -> (cmds: Vec<DrawCommand>)
    ensures
        ops(cmds@) == geoip_header_ops(),
{
    let mut cmds: Vec<DrawCommand> = Vec::new();
    emit(&mut cmds, DrawCommand::MoveTo(0, 8));
    emit(&mut cmds, print_str(GEOIP_TITLE));
    emit(&mut cmds, DrawCommand::MoveTo(0, 9));
    emit(&mut cmds, print_str(SEPARATOR));
    emit(&mut cmds, DrawCommand::SetAttribute(Attribute::Reset));
    assert(ops(cmds@) =~= geoip_header_ops());
    cmds
}

pub fn draw_geoip_footer() -> (cmds: Vec<DrawCommand>)
    ensures
        ops(cmds@) == footer_ops(GEOIP_FOOTER@),
{
    draw_footer(GEOIP_FOOTER)
}

/// The frame of the GeoIP page: the home banner, the page title and its footer.
pub fn draw_geoip() -> (cmds: Vec<DrawCommand>)
    ensures
        ops(cmds@) == home_header_ops() + geoip_header_ops() + footer_ops(GEOIP_FOOTER@),
{
    let mut cmds = draw_home_header();
    emit_all(&mut cmds, draw_geoip_header());
    emit_all(&mut cmds, draw_geoip_footer());
    cmds
}

/// The spinner frame shown beside "Loading" at time `now_ms`.
pub open spec fn loading_frame(now_ms: u128) -> Seq<char> {
    LOADING_FRAMES@[(((now_ms / 100) as usize) % 10) as int]@
}

/// The spinner frame shown beside the fetch message at time `now_ms`.
pub open spec fn fetch_frame(now_ms: u128) -> Seq<char> {
    FETCH_FRAMES@[(((now_ms / 150) as usize) % 4) as int]@
}

/// The input field can be drawn without cutting a character apart and without
/// running past the text. While the field is not loading: the cursor is at the
/// start of a character or at the end of the text; before the end, the byte
/// after the cursor is a boundary too, as the text from there on is drawn; and
/// when the field is active, the character shown under the cursor is the one
/// whose index is the cursor's byte position, so that index must exist.
pub open spec fn input_field_drawable(m: InputModel) -> bool {
    !m.loading ==> {
        &&& on_char_boundary(m.text, m.cursor)
        &&& m.cursor < utf8_len(m.text) ==> on_char_boundary(m.text, m.cursor + 1)
        &&& m.active && m.cursor < utf8_len(m.text) ==> m.cursor < m.text.len()
    }
}

/// Whether `draw_input_field` can draw `input_state`.
pub fn input_field_is_drawable(input_state: &InputState) -> (r: bool)
    ensures
        r == input_field_drawable(input_state@),
{
    if input_state.is_loading {
        return true;
    }
    let text = &input_state.input_text;
    let cursor = input_state.cursor_position;
    if !string_is_char_boundary(text, cursor) {
        return false;
    }
    let len = string_byte_len(text);
    if cursor < len {
        if !string_is_char_boundary(text, cursor + 1) {
            return false;
        }
        if input_state.is_input_active && cursor >= text.as_str().unicode_len() {
            return false;
        }
    }
    true
}

/// The commands of the input field at time `now_ms`: the prompt, then a
/// spinner while loading. Otherwise, when the field is inactive, the whole
/// text. When it is active: the text before the cursor; then, as a cursor that
/// is highlighted for half a second and plain for the next, the character whose
/// index is the cursor's byte position (a blank at the end); then the text from
/// the byte after the cursor on. For ASCII text this is the text with the
/// character at the cursor highlighted.
pub open spec fn input_field_ops(m: InputModel, now_ms: u128) -> Seq<DrawOp> {
    seq![DrawOp::MoveTo(0, 38), DrawOp::Print(INPUT_PROMPT@)] + if m.loading {
        seq![
            DrawOp::Foreground(Color::Yellow),
            DrawOp::Attribute(Attribute::Bold),
            DrawOp::Print(loading_frame(now_ms) + " Loading"@),
            DrawOp::Attribute(Attribute::Reset),
            DrawOp::Foreground(Color::Reset),
        ]
    } else {
        let k = char_index_at(m.text, m.cursor);
        let before = if m.cursor > 0 {
            seq![DrawOp::Print(m.text.take(k))]
        } else {
            Seq::empty()
        };
        if m.active {
            let under = if m.cursor < utf8_len(m.text) {
                seq![m.text[m.cursor]]
            } else {
                " "@
            };
            let cursor = if (now_ms / 500) % 2 == 0 {
                seq![
                    DrawOp::Foreground(Color::White),
                    DrawOp::Background(Color::DarkCyan),
                    DrawOp::Print(under),
                    DrawOp::Background(Color::Reset),
                    DrawOp::Foreground(Color::Reset),
                ]
            } else {
                seq![DrawOp::Print(under)]
            };
            let after = if m.cursor < utf8_len(m.text) {
                seq![DrawOp::Print(m.text.skip(char_index_at(m.text, m.cursor + 1)))]
            } else {
                Seq::empty()
            };
            before + cursor + after
        } else {
            before + if k < m.text.len() {
                seq![DrawOp::Print(m.text.skip(k))]
            } else {
                Seq::empty()
            }
        }
    }
}

/// The input field: prompt, then a spinner while loading, or else the text
/// with a blinking cursor (visible for half a second, hidden for the next).
pub fn draw_input_field(input_state: &InputState, now_ms: u128) -> (cmds: Vec<DrawCommand>)
    requires
        input_field_drawable(input_state@),
    ensures
        ops(cmds@) == input_field_ops(input_state@, now_ms),
{
    let mut cmds: Vec<DrawCommand> = Vec::new();
    emit(&mut cmds, DrawCommand::MoveTo(0, 38));
    emit(&mut cmds, print_str(INPUT_PROMPT));
    // While waiting for the service, only a spinner is shown.
    if input_state.is_loading {
        let spinner = LOADING_FRAMES[((now_ms / 100) as usize) % 10];
        emit(&mut cmds, DrawCommand::SetForegroundColor(Color::Yellow));
        emit(&mut cmds, DrawCommand::SetAttribute(Attribute::Bold));
        let mut line = spinner.to_owned();
        line.append(" Loading");
        emit(&mut cmds, DrawCommand::Print(line));
        emit(&mut cmds, DrawCommand::SetAttribute(Attribute::Reset));
        emit(&mut cmds, DrawCommand::SetForegroundColor(Color::Reset));
        assert(ops(cmds@) =~= input_field_ops(input_state@, now_ms));
        return cmds;
    }
    let cursor_pos = input_state.cursor_position;
    let input_text = &input_state.input_text;
    let len = string_byte_len(input_text);
    let ghost m = input_state@;
    let ghost k = char_index_at(m.text, m.cursor);
    proof {
        lemma_boundary_before_end(m.text, m.cursor);
    }
    // Text before the cursor.
    if cursor_pos > 0 {
        emit(&mut cmds, DrawCommand::Print(prefix_before(input_text, cursor_pos)));
    }
    // The text from the cursor on.
    if input_state.is_input_active {
        // The character whose index is the cursor's byte position.
        let under_cursor: String = if cursor_pos < len {
            input_text.as_str().substring_char(cursor_pos, cursor_pos + 1).to_owned()
        } else {
            " ".to_owned()
        };
        proof {
            if cursor_pos < len {
                assert(under_cursor@ =~= seq![m.text[m.cursor]]);
            }
        }
        if (now_ms / 500) % 2 == 0 {
            // Cursor visible phase.
            emit(&mut cmds, DrawCommand::SetForegroundColor(Color::White));
            emit(&mut cmds, DrawCommand::SetBackgroundColor(Color::DarkCyan));
            emit(&mut cmds, DrawCommand::Print(under_cursor));
            emit(&mut cmds, DrawCommand::SetBackgroundColor(Color::Reset));
            emit(&mut cmds, DrawCommand::SetForegroundColor(Color::Reset));
        } else {
            // Cursor hidden phase: the character is shown plainly.
            emit(&mut cmds, DrawCommand::Print(under_cursor));
        }
        // The text from the byte after the cursor on.
        if cursor_pos < len {
            emit(&mut cmds, DrawCommand::Print(suffix_from(input_text, cursor_pos + 1)));
        }
    } else if cursor_pos < len {
        // No cursor is drawn: the text goes on from the cursor.
        emit(&mut cmds, DrawCommand::Print(suffix_from(input_text, cursor_pos)));
    }
    assert(ops(cmds@) =~= input_field_ops(input_state@, now_ms));
    cmds
}

/// The text of an optional field, `-` when it is missing.
pub open spec fn or_dash(field: Option<String>) -> Seq<char> {
    match field {
        Some(s) => s@,
        None => "-"@,
    }
}

fn field_text(field: &Option<String>) -> (r: &str)
    ensures
        r@ == or_dash(*field),
{
    match field {
        Some(s) => s.as_str(),
        None => "-",
    }
}

/// The lines that show a GeoIP answer.
pub open spec fn geoip_data_ops(data: GeoIPResponse) -> Seq<DrawOp> {
    seq![
        DrawOp::MoveTo(2, 11),
        DrawOp::Print("IP Address:      "@ + data.ip@),
        DrawOp::MoveTo(2, 12),
        DrawOp::Print("Location:        "@ + or_dash(data.city) + " "@ + or_dash(data.region)),
        DrawOp::MoveTo(2, 13),
        DrawOp::Print("Country:         "@ + or_dash(data.country) + " ("@ + or_dash(data.country_code) + ")"@),
        DrawOp::MoveTo(2, 14),
        DrawOp::Print("Continent:       "@ + or_dash(data.continent_code)),
        DrawOp::MoveTo(2, 16),
        DrawOp::Print("Coordinates:     "@ + or_dash(data.latitude) + ", "@ + or_dash(data.longitude)),
        DrawOp::MoveTo(2, 17),
        DrawOp::Print("Timezone:        "@ + or_dash(data.timezone)),
        DrawOp::MoveTo(2, 19),
        DrawOp::Print("Organization:    "@ + or_dash(data.organization_name)),
        DrawOp::MoveTo(2, 20),
        DrawOp::Print("ASN:             "@ + match data.asn {
            Some(a) => i32_decimal(a),
            None => "-"@,
        }),
    ]
}

/// The commands of the result area at time `now_ms`.
pub open spec fn geoip_results_ops(result: Option<Result<GeoIPResponse, String>>, is_loading: bool, now_ms: u128) -> Seq<DrawOp> {
    if is_loading {
        seq![
            DrawOp::MoveTo(2, 15),
            DrawOp::Foreground(Color::Yellow),
            DrawOp::Print(fetch_frame(now_ms) + " Fetching GeoIP information... Please wait."@),
            DrawOp::MoveTo(2, 17),
            DrawOp::Print(FETCH_NOTE@),
            DrawOp::Foreground(Color::Reset),
        ]
    } else {
        match result {
            Some(Ok(data)) => geoip_data_ops(data),
            Some(Err(error)) => seq![
                DrawOp::MoveTo(2, 11),
                DrawOp::Foreground(Color::Red),
                DrawOp::Print("Error: "@ + error@),
                DrawOp::Foreground(Color::White),
            ],
            None => seq![
                DrawOp::MoveTo(2, 15),
                DrawOp::Print(HINT_LINE_1@),
                DrawOp::MoveTo(2, 16),
                DrawOp::Print(HINT_LINE_2@),
            ],
        }
    }
}

/// Two equal lines, built as `p + a + q` and `p + b + q`, have `a == b`.
proof fn lemma_middle_determines_line(
    la: Seq<char>,
    lb: Seq<char>,
    p: Seq<char>,
    a: Seq<char>,
    b: Seq<char>,
    q: Seq<char>,
)
    requires
        la == lb,
        la =~= p + a + q,
        lb =~= p + b + q,
    ensures
        a == b,
{
    assert(la.len() == p.len() + a.len() + q.len());
    assert(lb.len() == p.len() + b.len() + q.len());
    assert(a.len() == b.len());
    assert(la.subrange(p.len() as int, (p.len() + a.len()) as int) =~= a);
    assert(lb.subrange(p.len() as int, (p.len() + b.len()) as int) =~= b);
}

/// The Location line of an answer: the label, the city, one blank, and the
/// region last ("-" for a missing city or region).
pub proof fn lemma_location_line(d: GeoIPResponse, now_ms: u128)
    ensures
        ({
            let line = geoip_results_ops(Some(Ok(d)), false, now_ms)[3];
            let label = "Location:        "@;
            let city = or_dash(d.city);
            let region = or_dash(d.region);
            match line {
                DrawOp::Print(t) => {
                    &&& t.len() == label.len() + city.len() + 1 + region.len()
                    &&& t.take(label.len() as int) == label
                    &&& t.subrange(label.len() as int, (label.len() + city.len()) as int) == city
                    &&& t[(label.len() + city.len()) as int] == ' '
                    &&& t.skip((label.len() + city.len() + 1) as int) == region
                },
                _ => false,
            }
        }),
{
    reveal_strlit("Location:        ");
    reveal_strlit(" ");
    let label = "Location:        "@;
    let t = label + or_dash(d.city) + " "@ + or_dash(d.region);
    assert(t.take(label.len() as int) =~= label);
    let n = label.len() + or_dash(d.city).len();
    assert(t.subrange(label.len() as int, n as int) =~= or_dash(d.city));
    assert(t.skip((n + 1) as int) =~= or_dash(d.region));
}

/// Every field that the answer shows is shown: an answer that differs from
/// another in the shown text of one field alone (IP address, city, region,
/// country, country code, continent, latitude, longitude, time zone or
/// organization) is drawn differently.
#[verifier::spinoff_prover]
pub proof fn lemma_each_field_is_shown(d: GeoIPResponse, x: Option<String>, ip: String, now_ms: u128)
    ensures
        ({
            let shown = |e: GeoIPResponse| geoip_results_ops(Some(Ok(e)), false, now_ms);
            &&& ip@ != d.ip@ ==> shown(GeoIPResponse { ip, ..d }) != shown(d)
            &&& or_dash(x) != or_dash(d.city) ==> shown(GeoIPResponse { city: x, ..d }) != shown(d)
            &&& or_dash(x) != or_dash(d.region) ==> shown(GeoIPResponse { region: x, ..d }) != shown(d)
            &&& or_dash(x) != or_dash(d.country) ==> shown(GeoIPResponse { country: x, ..d }) != shown(d)
            &&& or_dash(x) != or_dash(d.country_code) ==> shown(GeoIPResponse { country_code: x, ..d })
                != shown(d)
            &&& or_dash(x) != or_dash(d.continent_code) ==> shown(
                GeoIPResponse { continent_code: x, ..d },
            ) != shown(d)
            &&& or_dash(x) != or_dash(d.latitude) ==> shown(GeoIPResponse { latitude: x, ..d }) != shown(d)
            &&& or_dash(x) != or_dash(d.longitude) ==> shown(GeoIPResponse { longitude: x, ..d }) != shown(d)
            &&& or_dash(x) != or_dash(d.timezone) ==> shown(GeoIPResponse { timezone: x, ..d }) != shown(d)
            &&& or_dash(x) != or_dash(d.organization_name) ==> shown(
                GeoIPResponse { organization_name: x, ..d },
            ) != shown(d)
        }),
{
    let e = Seq::<char>::empty();
    let ops = geoip_data_ops(d);
    let city = or_dash(d.city);
    let region = or_dash(d.region);
    let ox = or_dash(x);
    assert(ip@ != d.ip@ ==> geoip_data_ops(GeoIPResponse { ip, ..d }) != ops) by {
        if ip@ != d.ip@ {
            let o2 = geoip_data_ops(GeoIPResponse { ip, ..d });
            if o2[1] == ops[1] {
                lemma_middle_determines_line("IP Address:      "@ + ip@ + e, "IP Address:      "@ + d.ip@ + e, "IP Address:      "@, ip@, d.ip@, e);
            }
            assert(o2[1] != ops[1]);
        }
    }
    assert(ox != city ==> geoip_data_ops(GeoIPResponse { city: x, ..d }) != ops) by {
        if ox != city {
            let o2 = geoip_data_ops(GeoIPResponse { city: x, ..d });
        if o2[3] == ops[3] {
            lemma_middle_determines_line("Location:        "@ + ox + " "@ + region, "Location:        "@ + city + " "@ + region, "Location:        "@, ox, city, " "@ + region);
        }
        assert(o2[3] != ops[3]);
        }
    }
    assert(ox != region ==> geoip_data_ops(GeoIPResponse { region: x, ..d }) != ops) by {
        if ox != region {
            let o2 = geoip_data_ops(GeoIPResponse { region: x, ..d });
        if o2[3] == ops[3] {
            lemma_middle_determines_line("Location:        "@ + city + " "@ + ox + e, "Location:        "@ + city + " "@ + region + e, "Location:        "@ + city + " "@, ox, region, e);
        }
        assert(o2[3] != ops[3]);
        }
    }
    assert(ox != or_dash(d.country) ==> geoip_data_ops(GeoIPResponse { country: x, ..d }) != ops) by {
        if ox != or_dash(d.country) {
            let o2 = geoip_data_ops(GeoIPResponse { country: x, ..d });
        if o2[5] == ops[5] {
            lemma_middle_determines_line("Country:         "@ + ox + " ("@ + or_dash(d.country_code) + ")"@, "Country:         "@ + or_dash(d.country) + " ("@ + or_dash(d.country_code) + ")"@, "Country:         "@, ox, or_dash(d.country), " ("@ + or_dash(d.country_code) + ")"@);
        }
        assert(o2[5] != ops[5]);
        }
    }
    assert(ox != or_dash(d.country_code) ==> geoip_data_ops(GeoIPResponse { country_code: x, ..d }) != ops) by {
        if ox != or_dash(d.country_code) {
            let o2 = geoip_data_ops(GeoIPResponse { country_code: x, ..d });
        if o2[5] == ops[5] {
            lemma_middle_determines_line("Country:         "@ + or_dash(d.country) + " ("@ + ox + ")"@, "Country:         "@ + or_dash(d.country) + " ("@ + or_dash(d.country_code) + ")"@, "Country:         "@ + or_dash(d.country) + " ("@, ox, or_dash(d.country_code), ")"@);
        }
        assert(o2[5] != ops[5]);
        }
    }
    assert(ox != or_dash(d.continent_code) ==> geoip_data_ops(GeoIPResponse { continent_code: x, ..d }) != ops) by {
        if ox != or_dash(d.continent_code) {
            let o2 = geoip_data_ops(GeoIPResponse { continent_code: x, ..d });
        if o2[7] == ops[7] {
            lemma_middle_determines_line("Continent:       "@ + ox + e, "Continent:       "@ + or_dash(d.continent_code) + e, "Continent:       "@, ox, or_dash(d.continent_code), e);
        }
        assert(o2[7] != ops[7]);
        }
    }
    assert(ox != or_dash(d.latitude) ==> geoip_data_ops(GeoIPResponse { latitude: x, ..d }) != ops) by {
        if ox != or_dash(d.latitude) {
            let o2 = geoip_data_ops(GeoIPResponse { latitude: x, ..d });
        if o2[9] == ops[9] {
            lemma_middle_determines_line("Coordinates:     "@ + ox + ", "@ + or_dash(d.longitude), "Coordinates:     "@ + or_dash(d.latitude) + ", "@ + or_dash(d.longitude), "Coordinates:     "@, ox, or_dash(d.latitude), ", "@ + or_dash(d.longitude));
        }
        assert(o2[9] != ops[9]);
        }
    }
    assert(ox != or_dash(d.longitude) ==> geoip_data_ops(GeoIPResponse { longitude: x, ..d }) != ops) by {
        if ox != or_dash(d.longitude) {
            let o2 = geoip_data_ops(GeoIPResponse { longitude: x, ..d });
        if o2[9] == ops[9] {
            lemma_middle_determines_line("Coordinates:     "@ + or_dash(d.latitude) + ", "@ + ox + e, "Coordinates:     "@ + or_dash(d.latitude) + ", "@ + or_dash(d.longitude) + e, "Coordinates:     "@ + or_dash(d.latitude) + ", "@, ox, or_dash(d.longitude), e);
        }
        assert(o2[9] != ops[9]);
        }
    }
    assert(ox != or_dash(d.timezone) ==> geoip_data_ops(GeoIPResponse { timezone: x, ..d }) != ops) by {
        if ox != or_dash(d.timezone) {
            let o2 = geoip_data_ops(GeoIPResponse { timezone: x, ..d });
        if o2[11] == ops[11] {
            lemma_middle_determines_line("Timezone:        "@ + ox + e, "Timezone:        "@ + or_dash(d.timezone) + e, "Timezone:        "@, ox, or_dash(d.timezone), e);
        }
        assert(o2[11] != ops[11]);
        }
    }
    assert(ox != or_dash(d.organization_name) ==> geoip_data_ops(GeoIPResponse { organization_name: x, ..d }) != ops) by {
        if ox != or_dash(d.organization_name) {
            let o2 = geoip_data_ops(GeoIPResponse { organization_name: x, ..d });
        if o2[13] == ops[13] {
            lemma_middle_determines_line("Organization:    "@ + ox + e, "Organization:    "@ + or_dash(d.organization_name) + e, "Organization:    "@, ox, or_dash(d.organization_name), e);
        }
        assert(o2[13] != ops[13]);
        }
    }
}

fn labelled(label: &str, value: &str) -> (s: String)
    ensures
        s@ == label@ + value@,
{
    let mut s = label.to_owned();
    s.append(value);
    s
}

fn draw_geoip_data(data: &GeoIPResponse) -> (cmds: Vec<DrawCommand>)
    ensures
        ops(cmds@) == geoip_data_ops(*data),
{
    let mut cmds: Vec<DrawCommand> = Vec::new();
    emit(&mut cmds, DrawCommand::MoveTo(2, 11));
    emit(&mut cmds, DrawCommand::Print(labelled("IP Address:      ", data.ip.as_str())));
    emit(&mut cmds, DrawCommand::MoveTo(2, 12));
    let mut location = labelled("Location:        ", field_text(&data.city));
    location.append(" ");
    location.append(field_text(&data.region));
    emit(&mut cmds, DrawCommand::Print(location));
    emit(&mut cmds, DrawCommand::MoveTo(2, 13));
    let mut country = labelled("Country:         ", field_text(&data.country));
    country.append(" (");
    country.append(field_text(&data.country_code));
    country.append(")");
    emit(&mut cmds, DrawCommand::Print(country));
    emit(&mut cmds, DrawCommand::MoveTo(2, 14));
    emit(&mut cmds, DrawCommand::Print(labelled("Continent:       ", field_text(&data.continent_code))));
    emit(&mut cmds, DrawCommand::MoveTo(2, 16));
    let mut coordinates = labelled("Coordinates:     ", field_text(&data.latitude));
    coordinates.append(", ");
    coordinates.append(field_text(&data.longitude));
    emit(&mut cmds, DrawCommand::Print(coordinates));
    emit(&mut cmds, DrawCommand::MoveTo(2, 17));
    emit(&mut cmds, DrawCommand::Print(labelled("Timezone:        ", field_text(&data.timezone))));
    emit(&mut cmds, DrawCommand::MoveTo(2, 19));
    emit(&mut cmds, DrawCommand::Print(labelled("Organization:    ", field_text(&data.organization_name))));
    emit(&mut cmds, DrawCommand::MoveTo(2, 20));
    let asn = match data.asn {
        Some(a) => i32_to_string(a),
        None => "-".to_owned(),
    };
    emit(&mut cmds, DrawCommand::Print(labelled("ASN:             ", asn.as_str())));
    assert(ops(cmds@) =~= geoip_data_ops(*data));
    cmds
}

/// The result area: a spinner while loading, else the answer, the error, or
/// how to start.
pub fn draw_geoip_results(result: &Option<Result<GeoIPResponse, String>>, is_loading: bool, now_ms: u128) -> (cmds: Vec<DrawCommand>)
    ensures
        ops(cmds@) == geoip_results_ops(*result, is_loading, now_ms),
{
    let mut cmds: Vec<DrawCommand> = Vec::new();
    if is_loading {
        let spinner = FETCH_FRAMES[((now_ms / 150) as usize) % 4];
        emit(&mut cmds, DrawCommand::MoveTo(2, 15));
        emit(&mut cmds, DrawCommand::SetForegroundColor(Color::Yellow));
        emit(&mut cmds, DrawCommand::Print(labelled(spinner, " Fetching GeoIP information... Please wait.")));
        emit(&mut cmds, DrawCommand::MoveTo(2, 17));
        emit(&mut cmds, print_str(FETCH_NOTE));
        emit(&mut cmds, DrawCommand::SetForegroundColor(Color::Reset));
        assert(ops(cmds@) =~= geoip_results_ops(*result, is_loading, now_ms));
        return cmds;
    }
    match result {
        Some(Ok(data)) => {
            return draw_geoip_data(data);
        },
        Some(Err(error)) => {
            emit(&mut cmds, DrawCommand::MoveTo(2, 11));
            emit(&mut cmds, DrawCommand::SetForegroundColor(Color::Red));
            emit(&mut cmds, DrawCommand::Print(labelled("Error: ", error.as_str())));
            emit(&mut cmds, DrawCommand::SetForegroundColor(Color::White));
        },
        None => {
            emit(&mut cmds, DrawCommand::MoveTo(2, 15));
            emit(&mut cmds, print_str(HINT_LINE_1));
            emit(&mut cmds, DrawCommand::MoveTo(2, 16));
            emit(&mut cmds, print_str(HINT_LINE_2));
        },
    }
    assert(ops(cmds@) =~= geoip_results_ops(*result, is_loading, now_ms));
    cmds
}

} // verus!
