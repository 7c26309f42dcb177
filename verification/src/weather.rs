//! The weather and the temperature, as wttr.in reports them in plain text, such as
//! `Clear  +20°C`.

use crate::command::{command, command_view, CommandLine, Output};
use crate::text::{
    from_utf8_lossy, is_space, join, joined, split_words, utf8_lossy, views, word_len, words,
};
use vstd::prelude::*;

verus! {

/// The weather at one moment.
pub struct WeatherInfo {
    pub condition: String,
    pub temperature: String,
}

/// The weather by its characters.
pub struct WeatherView {
    pub condition: Seq<char>,
    pub temperature: Seq<char>,
}

impl View for WeatherInfo {
    type V = WeatherView;

    open spec fn view(&self) -> WeatherView {
        WeatherView { condition: self.condition@, temperature: self.temperature@ }
    }
}

/// The weather, where there is a report, by its characters.
pub open spec fn weather_opt(w: Option<WeatherInfo>) -> Option<WeatherView> {
    match w {
        Some(i) => Some(i@),
        None => None,
    }
}

/// How often to ask for the weather, in seconds: it changes slowly, and another's
/// server has to answer.
pub const POLL_INTERVAL_SECONDS: u64 = 15 * 60;

/// The command that asks for the weather.
pub fn weather_command() -> (c: CommandLine)
    ensures
        c@ == command_view(
            "curl"@,
            seq!["-s"@, "--max-time"@, "5"@, "https://wttr.in/?format=%C+%t"@],
        ),
{
    let c = command("curl").arg("-s").arg("--max-time").arg("5").arg("https://wttr.in/?format=%C+%t");
    assert(c@.args =~= seq!["-s"@, "--max-time"@, "5"@, "https://wttr.in/?format=%C+%t"@]);
    c
}

/// A report: its last word is the temperature, and the words before it are the
/// condition, which is not empty.
pub open spec fn report(text: Seq<char>) -> Option<WeatherView> {
    let parts = words(text);
    if parts.len() == 0 {
        None
    } else {
        let condition = joined(parts.drop_last(), " "@);
        if condition.len() == 0 {
            None
        } else {
            Some(WeatherView { condition, temperature: parts.last() })
        }
    }
}

/// Reads a report.
pub fn read_report(text: &str) -> (r: Option<WeatherInfo>)
    ensures
        weather_opt(r) == report(text@),
{
    let mut parts = split_words(text);
    let ghost all = views(parts@);
    assert(all == words(text@));
    assert(all.len() == parts@.len());
    match parts.pop() {
        None => None,
        Some(temperature) => {
            assert(views(parts@) =~= all.drop_last());
            assert(temperature@ == all.last());
            let condition = join(&parts, " ");
            if condition.as_str().is_empty() {
                None
            } else {
                Some(WeatherInfo { condition, temperature })
            }
        },
    }
}

/// The weather, from the output of the request for it. A request that failed gives
/// none.
pub fn status(output: &Option<Output>) -> (r: Option<WeatherInfo>)
    ensures
        weather_opt(r) == (match *output {
            Some(o) => if o.success {
                report(utf8_lossy(o.stdout@))
            } else {
                None
            },
            None => None,
        }),
{
    match output {
        Some(o) => {
            if o.success {
                let text = from_utf8_lossy(o.stdout.as_slice());
                read_report(text.as_str())
            } else {
                None
            }
        },
        None => None,
    }
}

proof fn words_are_filled(s: Seq<char>, i: int)
    requires
        0 <= i < words(s).len(),
    ensures
        words(s)[i].len() > 0,
    decreases s.len(),
{
    if is_space(s[0]) {
        words_are_filled(s.drop_first(), i);
    } else {
        let k = word_len(s);
        assert(k <= s.len()) by {
            crate::text::word_len_bounded(s);
        }
        if i > 0 {
            words_are_filled(s.skip(k as int), i - 1);
        }
    }
}

/// There is a report exactly where the text has two words or more, and neither the
/// condition nor the temperature of one is empty.
pub proof fn a_report_has_two_words(text: Seq<char>)
    ensures
        report(text) is Some <==> words(text).len() >= 2,
        report(text) matches Some(w) ==> w.condition.len() > 0 && w.temperature.len() > 0,
{
    let parts = words(text);
    if parts.len() > 0 {
        words_are_filled(text, parts.len() - 1);
    }
    if parts.len() >= 2 {
        let before = parts.drop_last();
        words_are_filled(text, parts.len() - 2);
        assert(before.last().len() > 0);
    }
}

/// The words of a report, in order, are those of the condition and then the temperature.
pub proof fn a_report_keeps_every_word(text: Seq<char>)
    requires
        words(text).len() >= 2,
    ensures
        report(text) matches Some(w) && words(text) == words(w.condition).push(w.temperature)
            && w.condition == joined(words(text).drop_last(), " "@),
{
    a_report_has_two_words(text);
    let parts = words(text);
    let before = parts.drop_last();
    assert forall|i: int| 0 <= i < before.len() implies crate::text::no_space(#[trigger] before[i])
        && before[i].len() > 0 by {
        crate::text::words_are_words(text, i);
    }
    crate::text::joined_words_are_found(before);
    assert(before.push(parts.last()) =~= parts);
}

} // verus!
