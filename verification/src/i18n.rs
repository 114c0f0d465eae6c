//! French and English texts of the user interface.

use vstd::prelude::*;
use crate::power::PowerAction;
use crate::text::{chars_equal, chars_of};

verus! {

/// Language of the interface.
#[derive(Debug, Clone, Copy, PartialEq, Eq, Structural)]
pub enum Locale {
    Fr,
    En,
}

impl Locale {
    /// Whether the interface is in English.
    pub fn is_en(&self) -> (b: bool)
        ensures
            b == (*self is En),
    {
        match self {
            Locale::En => true,
            Locale::Fr => false,
        }
    }
}

pub open spec fn spec_action_label(locale: Locale, action: PowerAction) -> Seq<char> {
    match (locale, action) {
        (Locale::Fr, PowerAction::Shutdown) => "Arrêt"@,
        (Locale::Fr, PowerAction::Restart) => "Redémarrage"@,
        (Locale::Fr, PowerAction::Sleep) => "Veille"@,
        (Locale::Fr, PowerAction::Hibernate) => "Hibernation"@,
        (Locale::Fr, PowerAction::Lock) => "Verrouillage"@,
        (Locale::En, PowerAction::Shutdown) => "Shutdown"@,
        (Locale::En, PowerAction::Restart) => "Restart"@,
        (Locale::En, PowerAction::Sleep) => "Sleep"@,
        (Locale::En, PowerAction::Hibernate) => "Hibernate"@,
        (Locale::En, PowerAction::Lock) => "Lock"@,
    }
}

/// Name of `action` in `locale`.
pub fn action_label(locale: &Locale, action: PowerAction) -> (l: &'static str)
    ensures
        l@ == spec_action_label(*locale, action),
{
    match (locale, action) {
        (Locale::Fr, PowerAction::Shutdown) => "Arrêt",
        (Locale::Fr, PowerAction::Restart) => "Redémarrage",
        (Locale::Fr, PowerAction::Sleep) => "Veille",
        (Locale::Fr, PowerAction::Hibernate) => "Hibernation",
        (Locale::Fr, PowerAction::Lock) => "Verrouillage",
        (Locale::En, PowerAction::Shutdown) => "Shutdown",
        (Locale::En, PowerAction::Restart) => "Restart",
        (Locale::En, PowerAction::Sleep) => "Sleep",
        (Locale::En, PowerAction::Hibernate) => "Hibernate",
        (Locale::En, PowerAction::Lock) => "Lock",
    }
}

/// Text of the message `key` (English when `en`); an unknown key stands for itself.
pub open spec fn message_text(en: bool, key: Seq<char>) -> Seq<char> {
    if key == "pro_power"@ {
        if en { "Pro: sleep, hibernate and lock."@ } else { "Fonction Pro : veille, hibernation et verrouillage."@ }
    } else if key == "pro_conditions"@ {
        if en { "Pro: conditions require a Pro license."@ } else { "Fonction Pro : conditions réservées à la licence Pro."@ }
    } else if key == "pro_recurring"@ {
        if en { "Pro: more than one recurring rule."@ } else { "Fonction Pro : plusieurs règles récurrentes."@ }
    } else if key == "pro_wake"@ {
        if en { "Pro: wake PC to run the action."@ } else { "Fonction Pro : réveiller le PC pour l'action."@ }
    } else if key == "invalid_license"@ {
        if en { "Invalid license key."@ } else { "Clé de licence invalide."@ }
    } else if key == "delay_or_condition"@ {
        if en { "Delay must be greater than 0, or add a condition."@ } else { "Le délai doit être supérieur à 0, ou ajoutez une condition."@ }
    } else if key == "alert_5m"@ {
        if en { "5 minutes left before the action."@ } else { "Plus que 5 minutes avant l'action."@ }
    } else if key == "alert_1m"@ {
        if en { "One minute left, action imminent."@ } else { "Plus qu'une minute, action imminente."@ }
    } else if key == "alert_soon"@ {
        if en { "Action imminent."@ } else { "Action imminente."@ }
    } else if key == "alert_grace"@ {
        if en { "Grace period: cancel now to abort."@ } else { "Délai de grâce : annulez pour interrompre."@ }
    } else if key == "waiting"@ {
        if en { "Aquerty Stop - waiting"@ } else { "Aquerty Stop - en attente"@ }
    } else if key == "grace_title"@ {
        if en { "Aquerty Stop - grace"@ } else { "Aquerty Stop - grâce"@ }
    } else if key == "empty_time"@ {
        if en { "Empty time."@ } else { "Temps vide."@ }
    } else if key == "invalid_number"@ {
        if en { "Invalid number."@ } else { "Nombre invalide"@ }
    } else if key == "time_gt_zero"@ {
        if en { "Time must be greater than 0."@ } else { "Le temps doit être supérieur à 0."@ }
    } else if key == "invalid_format"@ {
        if en { "Invalid format. Examples: 30m, 1h20m, 2h30m15s"@ } else { "Format invalide. Exemples : 30m, 1h20m, 2h30m15s"@ }
    } else {
        key
    }
}

fn pick(en: bool, english: &str, french: &str) -> (m: String)
    ensures
        m@ == if en { english@ } else { french@ },
{
    if en {
        String::from_str(english)
    } else {
        String::from_str(french)
    }
}

fn is_key(k: &Vec<char>, name: &str) -> (b: bool)
    ensures
        b == (k@ == name@),
{
    chars_equal(k, &chars_of(name))
}

/// Text of the message `key` in `locale`; an unknown key is returned as it is.
pub fn msg(locale: &Locale, key: &str) -> (m: String)
    ensures
        m@ == message_text(*locale is En, key@),
{
    let en = locale.is_en();
    let k = chars_of(key);
    if is_key(&k, "pro_power") {
        pick(en, "Pro: sleep, hibernate and lock.", "Fonction Pro : veille, hibernation et verrouillage.")
    } else if is_key(&k, "pro_conditions") {
        pick(en, "Pro: conditions require a Pro license.", "Fonction Pro : conditions réservées à la licence Pro.")
    } else if is_key(&k, "pro_recurring") {
        pick(en, "Pro: more than one recurring rule.", "Fonction Pro : plusieurs règles récurrentes.")
    } else if is_key(&k, "pro_wake") {
        pick(en, "Pro: wake PC to run the action.", "Fonction Pro : réveiller le PC pour l'action.")
    } else if is_key(&k, "invalid_license") {
        pick(en, "Invalid license key.", "Clé de licence invalide.")
    } else if is_key(&k, "delay_or_condition") {
        pick(en, "Delay must be greater than 0, or add a condition.", "Le délai doit être supérieur à 0, ou ajoutez une condition.")
    } else if is_key(&k, "alert_5m") {
        pick(en, "5 minutes left before the action.", "Plus que 5 minutes avant l'action.")
    } else if is_key(&k, "alert_1m") {
        pick(en, "One minute left, action imminent.", "Plus qu'une minute, action imminente.")
    } else if is_key(&k, "alert_soon") {
        pick(en, "Action imminent.", "Action imminente.")
    } else if is_key(&k, "alert_grace") {
        pick(en, "Grace period: cancel now to abort.", "Délai de grâce : annulez pour interrompre.")
    } else if is_key(&k, "waiting") {
        pick(en, "Aquerty Stop - waiting", "Aquerty Stop - en attente")
    } else if is_key(&k, "grace_title") {
        pick(en, "Aquerty Stop - grace", "Aquerty Stop - grâce")
    } else if is_key(&k, "empty_time") {
        pick(en, "Empty time.", "Temps vide.")
    } else if is_key(&k, "invalid_number") {
        pick(en, "Invalid number.", "Nombre invalide")
    } else if is_key(&k, "time_gt_zero") {
        pick(en, "Time must be greater than 0.", "Le temps doit être supérieur à 0.")
    } else if is_key(&k, "invalid_format") {
        pick(en, "Invalid format. Examples: 30m, 1h20m, 2h30m15s", "Format invalide. Exemples : 30m, 1h20m, 2h30m15s")
    } else {
        String::from_str(key)
    }
}

/// Notification text of an action that is starting, in `locale`.
pub fn action_in_progress(locale: &Locale, action: PowerAction) -> (m: String)
    ensures
        m@ == spec_action_label(*locale, action) + if *locale is En {
            " in progress…"@
        } else {
            " en cours…"@
        },
{
    let label = String::from_str(action_label(locale, action));
    if locale.is_en() {
        label.concat(" in progress…")
    } else {
        label.concat(" en cours…")
    }
}

} // verus!
