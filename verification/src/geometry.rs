//! Where a scratchpad window goes and how large it is, and which windows belong to
//! a scratchpad.
use vstd::prelude::*;
use crate::config::{PositionConfig, ScratchpadConfig, SizeConfig};
use crate::numbers::{parse_i32, parse_u32, saturate_i32, saturate_u32, std_parse_i32, std_parse_u32};
use crate::percent::{
    exp_den, exp_num, float_parse, law_round_monotone, law_round_range, lemma_exp_den_positive,
    percent_position_text, percent_size_text, position_of_percent, size_of_percent, PercentForm,
};
use crate::text::{chars_of, str_eq, string_of, sub_chars, trim_chars, trim_spec};
use crate::types::{OutputInfo, WindowInfo};

verus! {

/// `max(0, output - window)`: the room a window has to move in.
pub open spec fn free_space(output_dim: u32, window_dim: u32) -> nat {
    if output_dim >= window_dim {
        (output_dim - window_dim) as nat
    } else {
        0
    }
}

/// One coordinate of a position setting, in pixels.
///
/// A percentage places the window within the free space: `0%` at the left/top edge,
/// `50%` centred, `100%` at the right/bottom edge. The percentage is read as `f64`
/// parsing reads it (see [`float_parse`]: decimals, exponents, `inf`, `NaN`) and
/// applied as the `f64` arithmetic and its saturating cast to `i32` apply it (see
/// [`position_of_percent`]); the product is computed exactly and rounded half away
/// from zero. A percentage that is not a number counts as `0%`. Otherwise the text is
/// read as an `i32` (0 when it is not one).
pub open spec fn position_value(value: Seq<char>, output_dim: u32, window_dim: u32) -> i32 {
    let t = trim_spec(value);
    if t.len() > 0 && t.last() == '%' {
        match float_parse(trim_spec(t.drop_last())) {
            Some(p) => position_of_percent(p, free_space(output_dim, window_dim)),
            None => 0,
        }
    } else {
        match std_parse_i32(t) {
            Some(v) => v,
            None => 0,
        }
    }
}

/// One side of a size setting, in pixels.
///
/// A percentage scales the output's side, read and applied as for positions (see
/// [`size_of_percent`], with the saturating cast to `u32`); a percentage that is not
/// a number counts as `100%`. Otherwise the text is read as a `u32`, and the output's
/// side is used when it is not one.
pub open spec fn size_value(value: Seq<char>, output_dim: u32) -> u32 {
    let t = trim_spec(value);
    if t.len() > 0 && t.last() == '%' {
        match float_parse(trim_spec(t.drop_last())) {
            Some(p) => size_of_percent(p, output_dim as nat),
            None => output_dim,
        }
    } else {
        match std_parse_u32(t) {
            Some(v) => v,
            None => output_dim,
        }
    }
}

/// The trimmed text without its final `%`, if it ends with one.
fn split_percent(value: &str) -> (res: (Vec<char>, bool))
    ensures
        ({
            let t = trim_spec(value@);
            if t.len() > 0 && t.last() == '%' {
                res.1 && res.0@ == trim_spec(t.drop_last())
            } else {
                !res.1 && res.0@ == t
            }
        }),
{
    let cs = chars_of(value);
    let t = trim_chars(&cs);
    let n = t.len();
    if n > 0 && t[n - 1] == '%' {
        let body = sub_chars(&t, 0, n - 1);
        assert(body@ =~= t@.drop_last());
        (trim_chars(&body), true)
    } else {
        (t, false)
    }
}

/// `parse_position_value`: see [`position_value`].
fn parse_position_value(value: &str, output_dim: u32, window_dim: u32) -> (res: i32)
    ensures
        res == position_value(value@, output_dim, window_dim),
{
    let (body, pct) = split_percent(value);
    if pct {
        let room: u32 = if output_dim >= window_dim {
            output_dim - window_dim
        } else {
            0
        };
        match percent_position_text(&body, room) {
            Some(v) => v,
            None => 0,
        }
    } else {
        match parse_i32(&body) {
            Some(v) => v,
            None => 0,
        }
    }
}

/// `parse_size_value`: see [`size_value`].
fn parse_size_value(value: &str, output_dim: u32) -> (res: u32)
    ensures
        res == size_value(value@, output_dim),
{
    let (body, pct) = split_percent(value);
    if pct {
        match percent_size_text(&body, output_dim) {
            Some(v) => v,
            None => output_dim,
        }
    } else {
        match parse_u32(&body) {
            Some(v) => v,
            None => output_dim,
        }
    }
}

/// Converts position settings (percentages or pixels) to pixel coordinates for a
/// window of the given size on an output of the given size (see [`position_value`]).
pub fn convert_position_to_pixels(
    x_str: &str,
    y_str: &str,
    output_width: u32,
    output_height: u32,
    window_width: u32,
    window_height: u32,
) -> (res: (i32, i32))
    ensures
        res.0 == position_value(x_str@, output_width, window_width),
        res.1 == position_value(y_str@, output_height, window_height),
{
    let x = parse_position_value(x_str, output_width, window_width);
    let y = parse_position_value(y_str, output_height, window_height);
    (x, y)
}

/// The size setting that applies on output `output`: the output's override when it
/// has one, else the scratchpad's own.
pub open spec fn resolved_size(config: ScratchpadConfig, output: Seq<char>) -> Option<SizeConfig> {
    if config.output_overrides@.contains_key(output)
        && config.output_overrides@[output].size is Some {
        config.output_overrides@[output].size
    } else {
        config.size
    }
}

/// The position setting that applies on output `output`: the output's override when
/// it has one, else the scratchpad's own.
pub open spec fn resolved_position(config: ScratchpadConfig, output: Seq<char>) -> Option<
    PositionConfig,
> {
    if config.output_overrides@.contains_key(output)
        && config.output_overrides@[output].position is Some {
        config.output_overrides@[output].position
    } else {
        config.position
    }
}

/// The size and position settings that apply on one output.
pub fn resolve_output_overrides<'a>(config: &'a ScratchpadConfig, output_name: &str) -> (res: (
    Option<&'a SizeConfig>,
    Option<&'a PositionConfig>,
))
    ensures
        match res.0 {
            Some(s) => resolved_size(*config, output_name@) == Some(*s),
            None => resolved_size(*config, output_name@) is None,
        },
        match res.1 {
            Some(p) => resolved_position(*config, output_name@) == Some(*p),
            None => resolved_position(*config, output_name@) is None,
        },
{
    let ov = config.output_overrides.get(output_name);
    let size = match ov {
        Some(o) => match &o.size {
            Some(s) => Some(s),
            None => config.size.as_ref(),
        },
        None => config.size.as_ref(),
    };
    let position = match ov {
        Some(o) => match &o.position {
            Some(p) => Some(p),
            None => config.position.as_ref(),
        },
        None => config.position.as_ref(),
    };
    (size, position)
}

/// The size a scratchpad window will have on `output`: the resolved size setting,
/// or the whole output when there is none.
pub open spec fn expected_window_size(config: ScratchpadConfig, output: OutputInfo) -> (u32, u32) {
    match resolved_size(config, output.name@) {
        Some(s) => (size_value(s.width@, output.width), size_value(s.height@, output.height)),
        None => (output.width, output.height),
    }
}

/// Calculates the expected window size on an output, resolving percentages against
/// the output and taking per-output overrides into account.
pub fn calculate_expected_window_size(config: &ScratchpadConfig, output: &OutputInfo) -> (res: (
    u32,
    u32,
))
    ensures
        res == expected_window_size(*config, *output),
{
    let (size, _pos) = resolve_output_overrides(config, output.name.as_str());
    match size {
        None => (output.width, output.height),
        Some(s) => {
            let w = parse_size_value(s.width.as_str(), output.width);
            let h = parse_size_value(s.height.as_str(), output.height);
            (w, h)
        },
    }
}

/// What `regex::Regex::new(pattern)` followed by `Regex::is_match(value)` gives:
/// `None` when the pattern does not compile, else whether it matches somewhere in
/// `value`.
pub uninterp spec fn regex_search(pattern: Seq<char>, value: Seq<char>) -> Option<bool>;

/// Compiles `pattern` with `regex::Regex::new` and searches `value` with
/// `Regex::is_match`. The contract only names the outcome (see [`regex_search`]).
#[verifier::external_body]
fn regex_is_match(pattern: &str, value: &str) -> (res: Option<bool>)
    ensures
        res == regex_search(pattern@, value@),
{
    regex::Regex::new(pattern).ok().map(|re| re.is_match(value))
}

/// Whether `value` satisfies a match pattern: after a leading `/` the rest is a
/// regex; a pattern starting with `^` is a regex; anything else must be equal. A
/// regex that does not compile matches nothing.
pub open spec fn pattern_matches(pattern: Seq<char>, value: Seq<char>) -> bool {
    if pattern.len() > 0 && pattern[0] == '/' {
        regex_search(pattern.drop_first(), value) == Some(true)
    } else if pattern.len() > 0 && pattern[0] == '^' {
        regex_search(pattern, value) == Some(true)
    } else {
        pattern == value
    }
}

fn matches_pattern(pattern: &str, value: &str) -> (res: bool)
    ensures
        res == pattern_matches(pattern@, value@),
{
    let cs = chars_of(pattern);
    if cs.len() > 0 && cs[0] == '/' {
        let rest = string_of(&sub_chars(&cs, 1, cs.len()));
        assert(rest@ =~= pattern@.drop_first());
        regex_is_match(rest.as_str(), value) == Some(true)
    } else if cs.len() > 0 && cs[0] == '^' {
        regex_is_match(pattern, value) == Some(true)
    } else {
        str_eq(pattern, value)
    }
}

/// Whether a window belongs to a scratchpad: its app id and title each satisfy the
/// scratchpad's pattern when one is set (see [`pattern_matches`]).
pub open spec fn window_matches(window: WindowInfo, config: ScratchpadConfig) -> bool {
    &&& (config.app_id matches Some(p) ==> pattern_matches(p@, window.app_id@))
    &&& (config.title matches Some(p) ==> pattern_matches(p@, window.title@))
}

/// Checks a window against a scratchpad's app id and title criteria.
pub fn matches_config(window: &WindowInfo, config: &ScratchpadConfig) -> (res: bool)
    ensures
        res == window_matches(*window, *config),
{
    let app_id_matches = match &config.app_id {
        Some(p) => matches_pattern(p.as_str(), window.app_id.as_str()),
        None => true,
    };
    let title_matches = match &config.title {
        Some(p) => matches_pattern(p.as_str(), window.title.as_str()),
        None => true,
    };
    app_id_matches && title_matches
}

/// The percentage that a position or size text sets, when the trimmed text ends
/// with `%` and the rest is a number as `f64` parsing reads it.
pub open spec fn percent_text(value: Seq<char>) -> Option<PercentForm> {
    let t = trim_spec(value);
    if t.len() > 0 && t.last() == '%' {
        float_parse(trim_spec(t.drop_last()))
    } else {
        None
    }
}

/// A window placed at a percentage from 0 to 100 stays fully on its output: the
/// coordinate is at least 0 and the window ends within the output; `0%` puts it at
/// the near edge and `100%` at the far edge.
pub proof fn law_position_on_screen(value: Seq<char>, output_dim: u32, window_dim: u32)
    requires
        window_dim <= output_dim,
        output_dim <= i32::MAX,
        percent_text(value) matches Some(PercentForm::Num(neg, ip, fp, e)) && !neg && exp_num(
            ip,
            fp,
            e,
        ) <= 100 * exp_den(fp, e),
    ensures
        0 <= position_value(value, output_dim, window_dim),
        position_value(value, output_dim, window_dim) + window_dim <= output_dim,
        percent_text(value) matches Some(PercentForm::Num(_, ip, fp, e)) && exp_num(ip, fp, e) == 0
            ==> position_value(value, output_dim, window_dim) == 0,
        percent_text(value) matches Some(PercentForm::Num(_, ip, fp, e)) && exp_num(ip, fp, e) == 100
            * exp_den(fp, e) ==> position_value(value, output_dim, window_dim) == output_dim
            - window_dim,
{
    let p = percent_text(value)->0;
    let (ip, fp, e) = (p->Num_1, p->Num_2, p->Num_3);
    lemma_exp_den_positive(fp, e);
    law_round_range(free_space(output_dim, window_dim), exp_num(ip, fp, e), exp_den(fp, e));
}

/// A larger percentage moves a window no nearer the start: for two non-negative
/// percentages `p1 <= p2` on the same output and window, the first coordinate is at
/// most the second.
pub proof fn law_position_monotone(v1: Seq<char>, v2: Seq<char>, output_dim: u32, window_dim: u32)
    requires
        percent_text(v1) matches Some(PercentForm::Num(n1, ip1, fp1, e1)) && !n1,
        percent_text(v2) matches Some(PercentForm::Num(n2, ip2, fp2, e2)) && !n2,
        ({
            let p1 = percent_text(v1)->0;
            let p2 = percent_text(v2)->0;
            exp_num(p1->Num_1, p1->Num_2, p1->Num_3) * exp_den(p2->Num_2, p2->Num_3) <= exp_num(
                p2->Num_1,
                p2->Num_2,
                p2->Num_3,
            ) * exp_den(p1->Num_2, p1->Num_3)
        }),
    ensures
        position_value(v1, output_dim, window_dim) <= position_value(v2, output_dim, window_dim),
{
    let p1 = percent_text(v1)->0;
    let p2 = percent_text(v2)->0;
    lemma_exp_den_positive(p1->Num_2, p1->Num_3);
    lemma_exp_den_positive(p2->Num_2, p2->Num_3);
    law_round_monotone(
        free_space(output_dim, window_dim),
        exp_num(p1->Num_1, p1->Num_2, p1->Num_3),
        exp_den(p1->Num_2, p1->Num_3),
        exp_num(p2->Num_1, p2->Num_2, p2->Num_3),
        exp_den(p2->Num_2, p2->Num_3),
    );
}

} // verus!
