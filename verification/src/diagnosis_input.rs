//! What a diagnosis reads from a panic log before any cause is weighed: the
//! text scanned (the report's envelope before the excerpt), the missing
//! sensors that count, the signatures with one line per missing sensor, the
//! device and its marketing name, and the two windows of the text that the
//! rules read.
use crate::focus::holds_ci;
use crate::iphone::{display_for_hint, marketing_display_for_hints};
use crate::knowledge::opt_str_view;
use crate::workshop::{apple_internal_token, is_apple_internal_product_token};
use crate::panic_diagnostic::{byte_window, byte_window_exec, merge_extracted_fields, merged_fields, normalize_signatures, normalized_signatures, ExtractedFields};
use crate::panic_parser::{extract_missing_sensors_last, missing_sensors_last_spec, missing_sensors_spec, parse_panic_log};
use crate::text::{
    add_unique, add_unique_exec, append_chars, append_str, chars_eq, chars_eq_ci, chars_of, chars_of_strings, eq_ci, opt_view, string_of, strings_of, strs, to_lowercase,
    trim, trim_chars, unicode_lower, views,
};
use vstd::prelude::*;

verus! {

/// An envelope that holds more than whitespace.
pub open spec fn envelope_given(env: Option<Seq<char>>) -> bool {
    env is Some && trim(env.unwrap()).len() > 0
}

/// The text scanned: the trimmed envelope, a newline and the log, or the log
/// alone.
pub open spec fn wide_text(log: Seq<char>, env: Option<Seq<char>>) -> Seq<char> {
    if envelope_given(env) {
        trim(env.unwrap()) + seq!['\n'] + log
    } else {
        log
    }
}

/// The missing sensors that count: those the log declares; else, with an
/// envelope, the last declaration of the scanned text; else those of the
/// scanned text.
pub open spec fn chosen_missing(log: Seq<char>, env: Option<Seq<char>>) -> Seq<Seq<char>> {
    if missing_sensors_spec(log).len() > 0 {
        missing_sensors_spec(log)
    } else if envelope_given(env) {
        missing_sensors_last_spec(wide_text(log, env))
    } else {
        missing_sensors_spec(wide_text(log, env))
    }
}

pub open spec fn absent_label(s: Seq<char>) -> Seq<char> {
    "Capteur absent ("@ + s + ")"@
}

/// The signatures with a label per missing sensor (each once), then
/// `Missing sensor` when a sensor is missing and no signature reads so
/// (ASCII case ignored).
pub open spec fn with_missing(normalized: Seq<Seq<char>>, missing: Seq<Seq<char>>) -> Seq<Seq<char>> {
    let a = add_unique(normalized, missing.map_values(|s: Seq<char>| absent_label(s)));
    if missing.len() > 0 && !(exists|j: int| 0 <= j < a.len() && eq_ci(#[trigger] a[j], "Missing sensor"@)) {
        a.push("Missing sensor"@)
    } else {
        a
    }
}

/// The device: the product the log declares, else the trimmed hint; `unknown`
/// when that is empty.
pub open spec fn resolved_device(product: Option<Seq<char>>, hint: Option<Seq<char>>) -> Seq<char> {
    let d = match product {
        Some(p) => p,
        None => match hint {
            Some(h) => trim(h),
            None => Seq::empty(),
        },
    };
    if d.len() == 0 {
        "unknown"@
    } else {
        d
    }
}

/// The hint that names the device: the device when it is known, else the
/// trimmed hint when it is not empty.
pub open spec fn resolved_hint(device: Seq<char>, hint: Option<Seq<char>>) -> Option<Seq<char>> {
    if device != "unknown"@ {
        Some(device)
    } else {
        match hint {
            Some(h) => if trim(h).len() > 0 {
                Some(trim(h))
            } else {
                None
            },
            None => None,
        }
    }
}

pub struct DiagnosisInput {
    pub extracted: ExtractedFields,
    pub wide: String,
    pub missing_sensors: Vec<String>,
    pub normalized: Vec<String>,
    pub device: String,
    pub resolved_hint: Option<String>,
    pub marketing: Option<String>,
    /// The first 80000 bytes of the scanned text, lowercased.
    pub log_lc: String,
    /// The first 240000 bytes of the scanned text.
    pub log_wide: String,
}

fn labels_exec(missing: &[String]) -> (r: Vec<Vec<char>>)
    ensures
        views(r@) == strs(missing@).map_values(|s: Seq<char>| absent_label(s)),
{
    let mut r: Vec<Vec<char>> = Vec::new();
    let mut i: usize = 0;
    while i < missing.len()
        invariant
            i <= missing.len(),
            views(r@) == strs(missing@).take(i as int).map_values(|s: Seq<char>| absent_label(s)),
        decreases missing.len() - i,
    {
        let mut v = chars_of("Capteur absent (");
        append_str(&mut v, missing[i].as_str());
        append_str(&mut v, ")");
        let ghost before = views(r@);
        r.push(v);
        assert(views(r@) =~= before.push(absent_label(missing@[i as int]@)));
        assert(strs(missing@).take(i + 1) =~= strs(missing@).take(i as int).push(missing@[i as int]@));
        i += 1;
    }
    assert(strs(missing@).take(missing.len() as int) =~= strs(missing@));
    r
}

/// The signatures with the missing sensors (`with_missing`).
pub fn signatures_with_missing(normalized: &[String], missing: &[String]) -> (r: Vec<String>)
    ensures
        strs(r@) == with_missing(strs(normalized@), strs(missing@)),
{
    let mut out = chars_of_strings(normalized);
    let labels = labels_exec(missing);
    add_unique_exec(&mut out, &labels);
    if missing.len() > 0 {
        let ms = chars_of("Missing sensor");
        if !holds_ci(&out, &ms) {
            out.push(ms);
        }
    }
    strings_of(&out)
}

/// The text scanned (`wide_text`).
pub fn wide_text_exec(log: &str, ips_envelope: Option<&str>) -> (r: String)
    ensures
        r@ == wide_text(log@, opt_str_view(ips_envelope)),
{
    match ips_envelope {
        Some(env) => {
            let ec = chars_of(env);
            let t = trim_chars(&ec);
            if t.len() > 0 {
                let mut v = t;
                v.push('\n');
                append_str(&mut v, log);
                return string_of(&v);
            }
        },
        None => {},
    }
    let lc = chars_of(log);
    string_of(&lc)
}

/// What a diagnosis reads: each field as its spec function above says, the
/// fields from `merged_fields` and the signatures from
/// `normalized_signatures`.
pub fn prepare_diagnosis(log: &str, device_model_hint: Option<&str>, ips_envelope: Option<&str>) -> (r: DiagnosisInput)
    ensures
        r.extracted@ == merged_fields(log@, opt_str_view(ips_envelope)),
        r.wide@ == wide_text(log@, opt_str_view(ips_envelope)),
        strs(r.missing_sensors@) == chosen_missing(log@, opt_str_view(ips_envelope)),
        strs(r.normalized@) == with_missing(
            normalized_signatures(log@, r.extracted@.preview),
            chosen_missing(log@, opt_str_view(ips_envelope)),
        ),
        r.device@ == resolved_device(r.extracted@.product, opt_str_view(device_model_hint)),
        opt_view(r.resolved_hint) == resolved_hint(r.device@, opt_str_view(device_model_hint)),
        opt_view(r.marketing) == display_for_hint(opt_view(r.resolved_hint)),
        r.log_lc@ == unicode_lower(byte_window(r.wide@, 80000)),
        r.log_wide@ == byte_window(r.wide@, 240000),
{
    let extracted = merge_extracted_fields(log, ips_envelope);
    let wide = wide_text_exec(log, ips_envelope);
    let given = match ips_envelope {
        Some(env) => {
            let ec = chars_of(env);
            trim_chars(&ec).len() > 0
        },
        None => false,
    };
    let primary = parse_panic_log(log).missing_sensors;
    let missing_sensors = if primary.len() > 0 {
        primary
    } else if given {
        extract_missing_sensors_last(wide.as_str())
    } else {
        parse_panic_log(wide.as_str()).missing_sensors
    };
    let base = normalize_signatures(log, &extracted);
    let normalized = signatures_with_missing(&base, &missing_sensors);
    let d: Vec<char> = match &extracted.product {
        Some(p) => chars_of(p.as_str()),
        None => match device_model_hint {
            Some(h) => {
                let hc = chars_of(h);
                trim_chars(&hc)
            },
            None => Vec::new(),
        },
    };
    let device = if d.len() == 0 {
        let u = chars_of("unknown");
        string_of(&u)
    } else {
        string_of(&d)
    };
    let dc = chars_of(device.as_str());
    let uk = chars_of("unknown");
    let resolved: Option<String> = if !chars_eq(&dc, &uk) {
        Some(string_of(&dc))
    } else {
        match device_model_hint {
            Some(h) => {
                let hc = chars_of(h);
                let t = trim_chars(&hc);
                if t.len() > 0 {
                    Some(string_of(&t))
                } else {
                    None
                }
            },
            None => None,
        }
    };
    let marketing = match &resolved {
        Some(h) => marketing_display_for_hints(Some(h.as_str())),
        None => marketing_display_for_hints(None),
    };
    let wc = chars_of(wide.as_str());
    let w80 = byte_window_exec(&wc, 80000);
    let w80s = string_of(&w80);
    let lc = to_lowercase(w80s.as_str());
    let log_lc = string_of(&lc);
    let w240 = byte_window_exec(&wc, 240000);
    let log_wide = string_of(&w240);
    DiagnosisInput { extracted, wide, missing_sensors, normalized, device, resolved_hint: resolved, marketing, log_lc, log_wide }
}


// ---------------------------------------------------------------------------
// The device as an analysis shows it and signs it
// ---------------------------------------------------------------------------
/// A device that is neither empty nor `unknown` (ASCII case ignored) once
/// trimmed.
pub open spec fn device_known(device: Seq<char>) -> bool {
    trim(device).len() > 0 && !eq_ci(trim(device), "unknown"@)
}

/// The model shown for an analysis: the marketing name (beside the device
/// identifier when that is neither an Apple product token nor the same
/// name), else the known device, else the trimmed hint, its display, or
/// `Non renseigné`.
pub open spec fn shown_device(marketing: Option<Seq<char>>, device: Seq<char>, hint: Option<Seq<char>>) -> Seq<char> {
    let dev = trim(device);
    match marketing {
        Some(m) => if device_known(device) && !apple_internal_token(dev) && !eq_ci(dev, trim(m)) {
            m + " \u{c2}\u{b7} "@ + dev
        } else {
            m
        },
        None => if device_known(device) {
            dev
        } else if hint is Some && trim(hint.unwrap()).len() > 0 {
            trim(hint.unwrap())
        } else {
            match display_for_hint(hint) {
                Some(x) => x,
                None => "Non renseign\u{c3}\u{a9}"@,
            }
        },
    }
}

/// The device shown for an analysis (`shown_device`).
pub fn device_display(marketing: Option<&str>, device: &str, hint: Option<&str>) -> (r: String)
    ensures
        r@ == shown_device(opt_str_view(marketing), device@, opt_str_view(hint)),
{
    let dc = chars_of(device);
    let dev = trim_chars(&dc);
    let ds = string_of(&dev);
    let known = dev.len() > 0 && !chars_eq_ci(&dev, &chars_of("unknown"));
    match marketing {
        Some(m) => {
            let mc = chars_of(m);
            let mt = trim_chars(&mc);
            if known && !is_apple_internal_product_token(ds.as_str()) && !chars_eq_ci(&dev, &mt) {
                let mut v = mc;
                append_str(&mut v, " \u{c2}\u{b7} ");
                append_chars(&mut v, &dev);
                string_of(&v)
            } else {
                string_of(&mc)
            }
        },
        None => {
            if known {
                return ds;
            }
            match hint {
                Some(h) => {
                    let hc = chars_of(h);
                    let ht = trim_chars(&hc);
                    if ht.len() > 0 {
                        return string_of(&ht);
                    }
                },
                None => {},
            }
            match marketing_display_for_hints(hint) {
                Some(x) => x,
                None => {
                    let v = chars_of("Non renseign\u{c3}\u{a9}");
                    string_of(&v)
                },
            }
        },
    }
}

/// The device that signs an analysis: the known device trimmed, else the
/// trimmed hint, `unknown_model` when that is empty or absent.
pub open spec fn signing_device(device: Seq<char>, hint: Option<Seq<char>>) -> Seq<char> {
    let d = if device_known(device) {
        trim(device)
    } else {
        match hint {
            Some(h) => trim(h),
            None => "unknown_model"@,
        }
    };
    if d.len() == 0 {
        "unknown_model"@
    } else {
        d
    }
}

/// The device that signs an analysis (`signing_device`).
pub fn signature_device(device: &str, hint: Option<&str>) -> (r: String)
    ensures
        r@ == signing_device(device@, opt_str_view(hint)),
{
    let dc = chars_of(device);
    let dev = trim_chars(&dc);
    let d: Vec<char> = if dev.len() > 0 && !chars_eq_ci(&dev, &chars_of("unknown")) {
        dev
    } else {
        match hint {
            Some(h) => {
                let hc = chars_of(h);
                trim_chars(&hc)
            },
            None => chars_of("unknown_model"),
        }
    };
    if d.len() == 0 {
        let u = chars_of("unknown_model");
        string_of(&u)
    } else {
        string_of(&d)
    }
}

} // verus!
