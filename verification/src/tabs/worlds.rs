//! The world table's cells that are more than a number.
use vstd::prelude::*;
use crate::text::same;

verus! {

/// What the weather column shows for the server's weather name.
pub open spec fn weather_text(weather: Seq<char>) -> Seq<char> {
    if weather == "rain"@ {
        "Rain"@
    } else if weather == "thunder"@ {
        "Thunder"@
    } else if weather == "clear"@ {
        "Clear"@
    } else if weather == "none"@ {
        "–"@
    } else {
        weather
    }
}

pub fn weather_label(weather: &str) -> (s: String)
    ensures
        s@ == weather_text(weather@),
{
    if same(weather, "rain") {
        "Rain".to_owned()
    } else if same(weather, "thunder") {
        "Thunder".to_owned()
    } else if same(weather, "clear") {
        "Clear".to_owned()
    } else if same(weather, "none") {
        "–".to_owned()
    } else {
        weather.to_owned()
    }
}

} // verus!
