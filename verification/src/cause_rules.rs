//! The cause rules of a panic diagnosis: what the missing sensors, the log
//! and each normalized signature add to the cause board, before the weights
//! are demoted, merged and ranked.
use crate::findings::{BoardView, CauseBoard, add_check_s, board_view, max_u32, push_cause_s};
use crate::knowledge::opt_str_view;
use crate::panic_diagnostic::{
    battery_sensor, bug_type_label, bug_type_name, detect_i2c_stress, dock_pressure_sensor, i2c_stress, iphone15_4_wireless_smc_fingerprint,
    iphone15_series, iphone_7_family, iphone_x_class, iphone11_ids, is_15_4, is_iphone11_family_product, is_iphone15_4_product,
    is_iphone15_series_product, is_iphone_7_family, is_iphone_x_class, is_mic2_earpiece_generation, log_suggests_bottom_mic_oxidation,
    mic2_earpiece_ids, missing_battery_hint, slug_in_exec, missing_dock_pressure_hint, missing_has, oxidation_words, slug_in, wireless_smc_fingerprint,
};
use crate::repair_wiki::{IPHONE11_MIC2_CAUSE, IPHONE11_MIC2_THERMAL_FLASH_POWER_CAUSE, IPHONE15_BOTTOM_MIC_MODULE_CAUSE};
use crate::text::{lit_views, views, eq_str, join_exec, append_str, chars_of, contains_any, contains_str, ends_with, ends_with_str, join, join_strings, owned, seq_contains, string_of, strs, to_lowercase, unicode_lower};
use vstd::prelude::*;

verus! {

/// A board without shown lines.
pub open spec fn bv(b: CauseBoard) -> BoardView {
    board_view(b, Seq::empty())
}

fn cause(board: &mut CauseBoard, name: &str, w: u32)
    ensures
        bv(*final(board)) == push_cause_s(bv(*old(board)), name@, w),
{
    board.push_cause(name, w);
}

fn check(board: &mut CauseBoard, c: &str)
    ensures
        bv(*final(board)) == add_check_s(bv(*old(board)), c@),
{
    board.add_check(owned(c));
}

pub open spec fn has(l: Seq<char>, w: Seq<char>) -> bool {
    seq_contains(l, w)
}

pub open spec fn missing_lists(missing: Seq<Seq<char>>, id: Seq<char>) -> bool {
    missing.contains(id)
}

pub open spec fn battery_missing(missing: Seq<Seq<char>>) -> bool {
    exists|i: int| 0 <= i < missing.len() && battery_sensor(#[trigger] missing[i])
}

pub open spec fn dock_missing(missing: Seq<Seq<char>>) -> bool {
    exists|i: int| 0 <= i < missing.len() && dock_pressure_sensor(#[trigger] missing[i])
}

pub open spec fn iphone11_product(product: Option<Seq<char>>, device: Option<Seq<char>>) -> bool {
    slug_in(product, iphone11_ids()) || slug_in(device, iphone11_ids())
}

// ---------------------------------------------------------------------------
// Named missing sensors
// ---------------------------------------------------------------------------
pub open spec fn named_sensor_rules(
    b: BoardView,
    missing: Seq<Seq<char>>,
    marketing: Option<Seq<char>>,
    product: Option<Seq<char>>,
    device: Option<Seq<char>>,
) -> BoardView {
    let iphone11 = iphone11_product(product, device);
    let b1 = if missing_lists(missing, "mic2"@) {
        let u3500: u32 = if iphone_7_family(marketing, product) {
            960
        } else {
            740
        };
        let x = if iphone11 {
            add_check_s(push_cause_s(b, IPHONE11_MIC2_CAUSE@, 950), "iPhone 11 + MIC2 : nappe bouton power / micro flash (cf. fiche r\u{c3}\u{a9}f\u{c3}\u{a9}rence HTML)."@)
        } else if slug_in(product, seq!["iphone12,1"@]) || slug_in(device, seq!["iphone12,1"@]) {
            push_cause_s(b, "MIC2 \u{c2}\u{b7} assemblage Lightning (dock) puis flex volume / veille lat\u{c3}\u{a9}ral"@, 950)
        } else {
            push_cause_s(b, "MIC2 \u{c2}\u{b7} pr\u{c3}\u{a9}-ensemble haut-parleur + grille micro fa\u{c3}\u{a7}ade"@, 940)
        };
        add_check_s(
            add_check_s(
                push_cause_s(push_cause_s(x, "Bus audio CODEC \u{c2}\u{b7} ligne MIC2 sans r\u{c3}\u{a9}ponse pile"@, 760), "Audio IC (U3500) si court MIC2 avec nappes neuves"@, u3500),
                "Prioritaire : FPC reli\u{c3}\u{a9} au MIC2 nominal sur ce mod\u{c3}\u{a8}le."@,
            ),
            "Contr\u{c3}\u{b4}ler si\u{c3}\u{a8}ge FPC MIC2 / oxydation connecteur."@,
        )
    } else {
        b
    };
    let b2 = if missing_lists(missing, "mic1"@) && !iphone11 {
        if iphone15_series(marketing, product, device) {
            add_check_s(
                push_cause_s(push_cause_s(b1, IPHONE15_BOTTOM_MIC_MODULE_CAUSE@, 960), "Assemblage USB-C complet ou reseat clip micro bas + joint acoustique"@, 900),
                "iPhone 15 + MIC1 : module PCB MEMS sur flex USB-C \u{e2}\u{20ac}\u{201d} tr\u{c3}\u{a8}s paniqueux si oxyd\u{c3}\u{a9}."@,
            )
        } else {
            add_check_s(
                push_cause_s(push_cause_s(b1, "MIC1 \u{c2}\u{b7} nappe connecteur de charge / dock (cas terrain confirm\u{c3}\u{a9})"@, 910), "Ligne MIC1 / I2C audio-dock ou connecteur oxyd\u{c3}\u{a9}"@, 740),
                "MIC1 : tester d'abord une nappe dock OEM/Premium connue bonne avant carte m\u{c3}\u{a8}re."@,
            )
        }
    } else {
        b1
    };
    let b3 = if dock_missing(missing) && !iphone11 {
        add_check_s(
            push_cause_s(push_cause_s(b2, "PRS0 \u{c2}\u{b7} nappe connecteur de charge / capteur pression-dock"@, 920), "Dock aftermarket ou FPC charge mal clips\u{c3}\u{a9} / oxyd\u{c3}\u{a9}"@, 820),
            "PRS0 : cas terrain r\u{c3}\u{a9}current \u{e2}\u{20ac}\u{201d} remplacer/essayer dock OEM/Premium avant batterie ou carte."@,
        )
    } else {
        b2
    };
    let b4 = if battery_missing(missing) && !iphone11 {
        add_check_s(
            push_cause_s(push_cause_s(b3, "Batterie / BMS \u{c2}\u{b7} capteur courant ou thermique TG0"@, 900), "Connecteur battery FPC / gas gauge si TG0/BMS impliqu\u{c3}\u{a9}"@, 780),
            "M\u{c3}\u{a9}trologie BMS \u{c2}\u{b7} connecteur batterie \u{c2}\u{b7} cellules si TG0/gauge manquants"@,
        )
    } else {
        b3
    };
    if missing.len() > 0 && !missing_lists(missing, "mic2"@) && !missing_lists(missing, "mic1"@) && !battery_missing(missing) {
        add_check_s(push_cause_s(b4, "Capteur(s) list\u{c3}\u{a9}(s) manquant(s) : nappe / connecteur correspondant(e)"@, 790), "Pour chaque nom de capteur : FPC reli\u{c3}\u{a9} puis continuit\u{c3}\u{a9}s"@)
    } else {
        b4
    }
}

pub fn score_named_missing_sensors(
    board: &mut CauseBoard,
    missing: &[String],
    marketing: Option<&str>,
    product: Option<&str>,
    device_slug_hint: Option<&str>,
)
    ensures
        bv(*final(board)) == named_sensor_rules(
            bv(*old(board)),
            strs(missing@),
            opt_str_view(marketing),
            opt_str_view(product),
            opt_str_view(device_slug_hint),
        ),
{
    let iphone11 = is_iphone11_family_product(product, device_slug_hint);
    let mic2 = missing_has(missing, "mic2");
    let mic1 = missing_has(missing, "mic1");
    let battery = missing_battery_hint(missing);
    if mic2 {
        let u3500: u32 = if is_iphone_7_family(marketing, product) {
            960
        } else {
            740
        };
        if iphone11 {
            cause(board, IPHONE11_MIC2_CAUSE, 950);
            check(board, "iPhone 11 + MIC2 : nappe bouton power / micro flash (cf. fiche r\u{c3}\u{a9}f\u{c3}\u{a9}rence HTML).");
        } else {
            let ids: Vec<&str> = vec!["iphone12,1"];
            assert(lit_views(ids@) =~= seq!["iphone12,1"@]);
            if slug_in_exec(product, &ids) || slug_in_exec(device_slug_hint, &ids) {
                cause(board, "MIC2 \u{c2}\u{b7} assemblage Lightning (dock) puis flex volume / veille lat\u{c3}\u{a9}ral", 950);
            } else {
                cause(board, "MIC2 \u{c2}\u{b7} pr\u{c3}\u{a9}-ensemble haut-parleur + grille micro fa\u{c3}\u{a7}ade", 940);
            }
        }
        cause(board, "Bus audio CODEC \u{c2}\u{b7} ligne MIC2 sans r\u{c3}\u{a9}ponse pile", 760);
        cause(board, "Audio IC (U3500) si court MIC2 avec nappes neuves", u3500);
        check(board, "Prioritaire : FPC reli\u{c3}\u{a9} au MIC2 nominal sur ce mod\u{c3}\u{a8}le.");
        check(board, "Contr\u{c3}\u{b4}ler si\u{c3}\u{a8}ge FPC MIC2 / oxydation connecteur.");
    }
    if mic1 && !iphone11 {
        if is_iphone15_series_product(marketing, product, device_slug_hint) {
            cause(board, IPHONE15_BOTTOM_MIC_MODULE_CAUSE, 960);
            cause(board, "Assemblage USB-C complet ou reseat clip micro bas + joint acoustique", 900);
            check(board, "iPhone 15 + MIC1 : module PCB MEMS sur flex USB-C \u{e2}\u{20ac}\u{201d} tr\u{c3}\u{a8}s paniqueux si oxyd\u{c3}\u{a9}.");
        } else {
            cause(board, "MIC1 \u{c2}\u{b7} nappe connecteur de charge / dock (cas terrain confirm\u{c3}\u{a9})", 910);
            cause(board, "Ligne MIC1 / I2C audio-dock ou connecteur oxyd\u{c3}\u{a9}", 740);
            check(board, "MIC1 : tester d'abord une nappe dock OEM/Premium connue bonne avant carte m\u{c3}\u{a8}re.");
        }
    }
    if missing_dock_pressure_hint(missing) && !iphone11 {
        cause(board, "PRS0 \u{c2}\u{b7} nappe connecteur de charge / capteur pression-dock", 920);
        cause(board, "Dock aftermarket ou FPC charge mal clips\u{c3}\u{a9} / oxyd\u{c3}\u{a9}", 820);
        check(board, "PRS0 : cas terrain r\u{c3}\u{a9}current \u{e2}\u{20ac}\u{201d} remplacer/essayer dock OEM/Premium avant batterie ou carte.");
    }
    if battery && !iphone11 {
        cause(board, "Batterie / BMS \u{c2}\u{b7} capteur courant ou thermique TG0", 900);
        cause(board, "Connecteur battery FPC / gas gauge si TG0/BMS impliqu\u{c3}\u{a9}", 780);
        check(board, "M\u{c3}\u{a9}trologie BMS \u{c2}\u{b7} connecteur batterie \u{c2}\u{b7} cellules si TG0/gauge manquants");
    }
    if missing.len() > 0 && !mic2 && !mic1 && !battery {
        cause(board, "Capteur(s) list\u{c3}\u{a9}(s) manquant(s) : nappe / connecteur correspondant(e)", 790);
        check(board, "Pour chaque nom de capteur : FPC reli\u{c3}\u{a9} puis continuit\u{c3}\u{a9}s");
    }
}

// ---------------------------------------------------------------------------
// The bottom microphone module of the iPhone 15 family
// ---------------------------------------------------------------------------
pub open spec fn smc_bottom(l: Seq<char>) -> bool {
    has(l, "0x80000"@) || has(l, "524288"@) || has(l, "0x300000"@) || has(l, "3145728"@) || has(l, "smc panic"@)
}

pub open spec fn bottom_module_rules(
    b: BoardView,
    l: Seq<char>,
    missing: Seq<Seq<char>>,
    marketing: Option<Seq<char>>,
    product: Option<Seq<char>>,
    device: Option<Seq<char>>,
) -> BoardView {
    let mic1 = missing_lists(missing, "mic1"@) || has(l, "mic1"@);
    let thermal = has(l, "thermalmonitord"@);
    if !iphone15_series(marketing, product, device) || (!mic1 && !thermal && !smc_bottom(l)) {
        b
    } else {
        let w0: u32 = if mic1 && thermal {
            970
        } else if mic1 {
            950
        } else if thermal && smc_bottom(l) {
            930
        } else {
            900
        };
        let ox = contains_any(l, oxidation_words());
        let b1 = if ox {
            push_cause_s(b, "Oxydation module micro bas / connecteur flex USB-C (tr\u{c3}\u{a8}s fr\u{c3}\u{a9}quent s\u{c3}\u{a9}rie 15)"@, 940)
        } else {
            b
        };
        let w = if ox {
            max_u32(w0, 980)
        } else {
            w0
        };
        let b2 = add_check_s(push_cause_s(b1, IPHONE15_BOTTOM_MIC_MODULE_CAUSE@, w), "S\u{c3}\u{a9}rie 15 : module micro bas = PCB MEMS sur flex USB-C ; reseat clip + joint mousse ; ultrason si oxyd\u{c3}\u{a9}."@);
        let b3 = if thermal {
            add_check_s(b2, "thermalmonitord sur iPhone 15 \u{e2}\u{2030}\u{a0} chauffe CPU : prioriser MIC1 / capteurs du module bas."@)
        } else {
            b2
        };
        add_check_s(b3, "Charge VBUS peut rester OK alors que MIC1 / lignes capteurs du flex bas sont absentes."@)
    }
}

pub fn score_iphone15_bottom_mic_module(
    board: &mut CauseBoard,
    log_lc: &str,
    missing: &[String],
    marketing: Option<&str>,
    product: Option<&str>,
    device_hint: Option<&str>,
)
    ensures
        bv(*final(board)) == bottom_module_rules(
            bv(*old(board)),
            log_lc@,
            strs(missing@),
            opt_str_view(marketing),
            opt_str_view(product),
            opt_str_view(device_hint),
        ),
{
    if !is_iphone15_series_product(marketing, product, device_hint) {
        return;
    }
    let l = chars_of(log_lc);
    let mic1 = missing_has(missing, "mic1") || contains_str(&l, "mic1");
    let thermal = contains_str(&l, "thermalmonitord");
    let smc = contains_str(&l, "0x80000") || contains_str(&l, "524288") || contains_str(&l, "0x300000") || contains_str(
        &l,
        "3145728",
    ) || contains_str(&l, "smc panic");
    if !mic1 && !thermal && !smc {
        return;
    }
    let mut w: u32 = if mic1 && thermal {
        970
    } else if mic1 {
        950
    } else if thermal && smc {
        930
    } else {
        900
    };
    if log_suggests_bottom_mic_oxidation(log_lc) {
        if w < 980 {
            w = 980;
        }
        cause(board, "Oxydation module micro bas / connecteur flex USB-C (tr\u{c3}\u{a8}s fr\u{c3}\u{a9}quent s\u{c3}\u{a9}rie 15)", 940);
    }
    cause(board, IPHONE15_BOTTOM_MIC_MODULE_CAUSE, w);
    check(board, "S\u{c3}\u{a9}rie 15 : module micro bas = PCB MEMS sur flex USB-C ; reseat clip + joint mousse ; ultrason si oxyd\u{c3}\u{a9}.");
    if thermal {
        check(board, "thermalmonitord sur iPhone 15 \u{e2}\u{2030}\u{a0} chauffe CPU : prioriser MIC1 / capteurs du module bas.");
    }
    check(board, "Charge VBUS peut rester OK alors que MIC1 / lignes capteurs du flex bas sont absentes.");
}

// ---------------------------------------------------------------------------
// Rules read from the whole log
// ---------------------------------------------------------------------------
/// The iPhone 15,4 wireless-charging SMC fingerprint.
pub open spec fn wireless_15_4(l: Seq<char>, product: Option<Seq<char>>, device: Option<Seq<char>>) -> bool {
    (is_15_4(product) || is_15_4(device)) && wireless_smc_fingerprint(l)
}

pub open spec fn log_rules(
    b: BoardView,
    l: Seq<char>,
    missing: Seq<Seq<char>>,
    product: Option<Seq<char>>,
    device: Option<Seq<char>>,
) -> BoardView {
    let b1 = if iphone11_product(product, device) && missing_lists(missing, "mic2"@) && (has(l, "thermalmonitord"@) || has(
        l,
        "no successful checkins from thermalmonitord"@,
    )) {
        add_check_s(push_cause_s(b, IPHONE11_MIC2_THERMAL_FLASH_POWER_CAUSE@, 720), "iPhone 11 + thermalmonitord + MIC2 : v\u{c3}\u{a9}rifier nappe bouton power / flash."@)
    } else {
        b
    };
    let b2 = if wireless_15_4(l, product, device) {
        add_check_s(
            add_check_s(
                push_cause_s(
                    push_cause_s(push_cause_s(b1, "Nappe wireless charging / assemblage MagSafe (motif TAOP\u{c2}\u{b7}TAOJ + OUTBOX1 \u{e2}\u{20ac}\u{201d} prioritaire)"@, 950), "Capteurs thermiques ou bus SMC sur nappe Qi \u{e2}\u{20ac}\u{201d} p\u{c3}\u{a9}riph. sans r\u{c3}\u{a9}ponse (OUTBOX1)"@, 880),
                    "Nappe aftermarket, FPC mal clips\u{c3}\u{a9}, ou ligne I2C thermique rompue (avant carte m\u{c3}\u{a8}re / batterie seule)"@,
                    820,
                ),
                "Historique remplacement MagSafe / bobine / flex wireless : reprendre pi\u{c3}\u{a8}ce OE ou ressertir avant BMS/CM"@,
            ),
            "Ne pas classer en simple surchauffe g\u{c3}\u{a9}n\u{c3}\u{a9}rique, batterie seule, ou d\u{c3}\u{a9}faut carte m\u{c3}\u{a8}re sans isoler nappe Qi"@,
        )
    } else {
        b1
    };
    let b3 = if i2c_stress(l) {
        if has(l, "checkbusstatus"@) && has(l, "scl"@) && has(l, "stuck low"@) {
            add_check_s(
                push_cause_s(push_cause_s(b2, "I2C SCL stuck low \u{c2}\u{b7} p\u{c3}\u{a9}riph\u{c3}\u{a9}rique/flex qui tire le bus \u{c3}\u{a0} la masse"@, 890), "Nappe dock/charge ou accessoire Lightning/USB-C \u{c3}\u{a0} isoler en premier"@, 830),
                "I2C SCL stuck low : d\u{c3}\u{a9}brancher nappes une par une, commencer par dock/charge/accessoires, puis mesurer diode SCL/SDA."@,
            )
        } else {
            add_check_s(push_cause_s(b2, "Bus I2C bloqu\u{c3}\u{a9} ou p\u{c3}\u{a9}riph\u{c3}\u{a9}rique sans r\u{c3}\u{a9}ponse (timeouts)"@, 820), "Localiser lignes I2C cit\u{c3}\u{a9}es puis periph coup\u{c3}\u{a9} ou rail associ\u{c3}\u{a9}"@)
        }
    } else {
        b2
    };
    let b4 = if has(l, "gas gauge"@) || has(l, "gasgauge"@) {
        add_check_s(push_cause_s(b3, "Communication gas gauge / batterie (preuve dans le log)"@, 800), "Gauge / BMS / connecteur bat si gas gauge nominal"@)
    } else {
        b3
    };
    if (has(l, "panic-full"@) && has(l, "3 minute"@)) || has(l, "3-minute"@) || has(l, "restarts every 3"@) {
        add_check_s(b4, "Reboot ~3 minutes : penser watchdog thermalmonitord / capteur absent, pas batterie au hasard."@)
    } else {
        b4
    }
}

fn log_rules_exec(board: &mut CauseBoard, l: &[char], log_lc: &str, missing: &[String], product: Option<&str>, device: Option<&str>)
    requires
        l@ == log_lc@,
    ensures
        bv(*final(board)) == log_rules(bv(*old(board)), l@, strs(missing@), opt_str_view(product), opt_str_view(device)),
{
    if is_iphone11_family_product(product, device) && missing_has(missing, "mic2") && (contains_str(l, "thermalmonitord")
        || contains_str(l, "no successful checkins from thermalmonitord")) {
        cause(board, IPHONE11_MIC2_THERMAL_FLASH_POWER_CAUSE, 720);
        check(board, "iPhone 11 + thermalmonitord + MIC2 : v\u{c3}\u{a9}rifier nappe bouton power / flash.");
    }
    if is_iphone15_4_product(product, device) && iphone15_4_wireless_smc_fingerprint(log_lc) {
        cause(board, "Nappe wireless charging / assemblage MagSafe (motif TAOP\u{c2}\u{b7}TAOJ + OUTBOX1 \u{e2}\u{20ac}\u{201d} prioritaire)", 950);
        cause(board, "Capteurs thermiques ou bus SMC sur nappe Qi \u{e2}\u{20ac}\u{201d} p\u{c3}\u{a9}riph. sans r\u{c3}\u{a9}ponse (OUTBOX1)", 880);
        cause(board, "Nappe aftermarket, FPC mal clips\u{c3}\u{a9}, ou ligne I2C thermique rompue (avant carte m\u{c3}\u{a8}re / batterie seule)", 820);
        check(board, "Historique remplacement MagSafe / bobine / flex wireless : reprendre pi\u{c3}\u{a8}ce OE ou ressertir avant BMS/CM");
        check(board, "Ne pas classer en simple surchauffe g\u{c3}\u{a9}n\u{c3}\u{a9}rique, batterie seule, ou d\u{c3}\u{a9}faut carte m\u{c3}\u{a8}re sans isoler nappe Qi");
    }
    if detect_i2c_stress(log_lc) {
        if contains_str(l, "checkbusstatus") && contains_str(l, "scl") && contains_str(l, "stuck low") {
            cause(board, "I2C SCL stuck low \u{c2}\u{b7} p\u{c3}\u{a9}riph\u{c3}\u{a9}rique/flex qui tire le bus \u{c3}\u{a0} la masse", 890);
            cause(board, "Nappe dock/charge ou accessoire Lightning/USB-C \u{c3}\u{a0} isoler en premier", 830);
            check(board, "I2C SCL stuck low : d\u{c3}\u{a9}brancher nappes une par une, commencer par dock/charge/accessoires, puis mesurer diode SCL/SDA.");
        } else {
            cause(board, "Bus I2C bloqu\u{c3}\u{a9} ou p\u{c3}\u{a9}riph\u{c3}\u{a9}rique sans r\u{c3}\u{a9}ponse (timeouts)", 820);
            check(board, "Localiser lignes I2C cit\u{c3}\u{a9}es puis periph coup\u{c3}\u{a9} ou rail associ\u{c3}\u{a9}");
        }
    }
    if contains_str(l, "gas gauge") || contains_str(l, "gasgauge") {
        cause(board, "Communication gas gauge / batterie (preuve dans le log)", 800);
        check(board, "Gauge / BMS / connecteur bat si gas gauge nominal");
    }
    if (contains_str(l, "panic-full") && contains_str(l, "3 minute")) || contains_str(l, "3-minute") || contains_str(l, "restarts every 3") {
        check(board, "Reboot ~3 minutes : penser watchdog thermalmonitord / capteur absent, pas batterie au hasard.");
    }
}

// ---------------------------------------------------------------------------
// One rule per normalized signature
// ---------------------------------------------------------------------------
/// What the context of a diagnosis tells each signature rule.
pub struct SigContext {
    pub marketing: Option<Seq<char>>,
    pub product: Option<Seq<char>>,
    pub device: Option<Seq<char>>,
    pub missing: Seq<Seq<char>>,
    pub joined: Seq<char>,
    pub any_outbox: bool,
    pub w15: bool,
    pub audio: bool,
    pub batt: bool,
}

pub open spec fn earpiece_gen(product: Option<Seq<char>>, device: Option<Seq<char>>) -> bool {
    slug_in(product, mic2_earpiece_ids()) || slug_in(device, mic2_earpiece_ids())
}

pub open spec fn thermal_weights(c: SigContext) -> (u32, u32, u32) {
    if c.w15 {
        (340, 380, 220)
    } else if c.audio && !c.batt {
        (520, 440, 350)
    } else if c.batt {
        (900, 810, 850)
    } else {
        (910, 840, 720)
    }
}

pub open spec fn signature_rule_a(b: BoardView, n: Seq<char>, c: SigContext) -> Option<BoardView> {
    if has(n, "mic2 interrupt"@) {
        Some(
            if iphone_7_family(c.marketing, c.product) {
                add_check_s(add_check_s(push_cause_s(b, "Audio IC (U3500)"@, 970), "Mesure lignes MIC2 / ligne I\u{c2}\u{b2}S"@), "Reflow / repro Audio IC selon gabarit"@)
            } else if earpiece_gen(c.product, c.device) {
                if iphone11_product(c.product, c.device) {
                    add_check_s(
                        push_cause_s(push_cause_s(b, "MIC2 interrupt \u{c2}\u{b7} iPhone 11 \u{c2}\u{b7} Nappe bouton power \u{c2}\u{b7} Micro c\u{c3}\u{b4}t\u{c3}\u{a9} flash"@, 860), "Audio IC (U3500) seulement apr\u{c3}\u{a8}s exclusion nappe power et bus audio"@, 420),
                        "MIC2 interrupt s\u{c3}\u{a9}rie 11 : nappe bouton power (micro flash), pas \u{c3}\u{a9}couteur en premier."@,
                    )
                } else {
                    add_check_s(
                        push_cause_s(push_cause_s(b, "\u{c3}\u{2030}couteur interne / pr\u{c3}\u{a9}-ensemble avant (MIC2 interrupt \u{e2}\u{20ac}\u{201d} corr\u{c3}\u{a9}lation forte X\u{e2}\u{2020}\u{2019}12)"@, 850), "Audio IC (U3500) seulement apr\u{c3}\u{a8}s exclusion nappe \u{c3}\u{a9}couteur"@, 480),
                        "MIC2 interrupt hors iPhone 7 : isoler pr\u{c3}\u{a9}-ensemble \u{c3}\u{a9}couteur + FPC avant U3500."@,
                    )
                }
            } else {
                add_check_s(add_check_s(push_cause_s(b, "Audio IC (U3500)"@, 720), "Mesure lignes MIC2 / ligne I\u{c2}\u{b2}S"@), "Reflow / repro Audio IC selon gabarit"@)
            },
        )
    } else if has(n, "thermalmonitord"@) || has(n, "no successful checkins"@) {
        let (wt, wd, wb) = thermal_weights(c);
        let x = push_cause_s(push_cause_s(push_cause_s(b, "Cha\u{c3}\u{ae}ne thermique / rapport temp\u{c3}\u{a9}ratures"@, wt), "Nappe charge / dock (chemins donn\u{c3}\u{a9}es capteurs)"@, wd), "Communication batterie (Gas gauge / BMS)"@, wb);
        let y = if c.audio && !c.batt {
            add_check_s(push_cause_s(x, "thermalmonitord sans check-ins (effet capteur/bus \u{e2}\u{20ac}\u{201d} pas forc\u{c3}\u{a9}ment surchauffe)"@, 640), "Ne pas conclure surchauffe r\u{c3}\u{a9}elle sans autre motif thermique dans le panic"@)
        } else {
            x
        };
        let z = if !c.audio && !c.batt {
            add_check_s(y, "thermalmonitord seul sans capteur manquant : souvent sympt\u{c3}\u{b4}me bus \u{e2}\u{20ac}\u{201d} \u{e2}\u{2030}\u{a0} preuve panne thermique CPU (atelier)."@)
        } else {
            y
        };
        Some(add_check_s(add_check_s(add_check_s(z, "Nappe charge et connecteur"@), "Sonde thermique / lignes I2C capteurs"@), "Connecteur battery FPC"@))
    } else if has(n, "userspace watchdog"@) || ends_with(n, "watchdog timeout"@) {
        Some(
            add_check_s(
                add_check_s(
                    push_cause_s(push_cause_s(b, "Blocage watchdog (periph I2C / capteurs)"@, 720), "PMIC / rails instables possibles"@, 580),
                    "Rails alim basse tension (mesure)"@,
                ),
                "userspace watchdog : signature souvent g\u{c3}\u{a9}n\u{c3}\u{a9}rique \u{e2}\u{20ac}\u{201d} \u{c3}\u{a9}carter iOS / restore avant hardware seul (surtout 14/15)."@,
            ),
        )
    } else if has(n, "aop nmi power"@) {
        Some(add_check_s(push_cause_s(b, "Nappe bouton Power ou assemblage cam\u{c3}\u{a9}ra avant (AOP NMI POWER \u{e2}\u{20ac}\u{201d} iFixit)"@, 820), "AOP NMI POWER : iFixit \u{e2}\u{20ac}\u{201d} c\u{c3}\u{a2}ble Power ou cam\u{c3}\u{a9}ra avant ; isoler avant carte."@))
    } else if has(n, "applesochot"@) {
        Some(add_check_s(push_cause_s(b, "Surchauffe SoC / ligne alim SoC ou d\u{c3}\u{a9}faut carte (AppleSocHot \u{e2}\u{20ac}\u{201d} souvent carte, pas flex)"@, 760), "AppleSocHot : iFixit \u{e2}\u{20ac}\u{201d} v\u{c3}\u{a9}rifier zones r\u{c3}\u{a9}par\u{c3}\u{a9}es ; Wi\u{e2}\u{20ac}\u{2018}Fi / audio carte souvent en cause."@))
    } else if has(n, "undefined kernel instruction"@) {
        Some(add_check_s(push_cause_s(b, "Instruction noyau non d\u{c3}\u{a9}finie \u{e2}\u{20ac}\u{201d} cause logicielle fr\u{c3}\u{a9}quente (mise \u{c3}\u{a0} jour / restore)"@, 550), "iFixit : si persiste apr\u{c3}\u{a8}s restore complet \u{e2}\u{20ac}\u{201d} penser RAM / NAND / carte."@))
    } else if has(n, "aop panic"@) {
        let fx: u32 = if iphone_x_class(c.marketing) {
            900
        } else {
            780
        };
        Some(
            add_check_s(
                add_check_s(
                    push_cause_s(push_cause_s(b, "Nappe Face ID / capteurs avant"@, fx), "Haut-parleur / flood illuminator (ligne avant)"@, 720),
                    "Nappe avant + proximity / flood"@,
                ),
                "AOP PANIC : plusieurs p\u{c3}\u{a9}riph\u{c3}\u{a9}riques avant possibles \u{e2}\u{20ac}\u{201d} ne pas arr\u{c3}\u{aa}ter un seul composant sans isolement."@,
            ),
        )
    } else {
        None
    }
}

pub open spec fn signature_rule_b(b: BoardView, n: Seq<char>, c: SigContext) -> BoardView {
    if has(n, "smc panic"@) || has(c.joined, "bsc failure"@) {
        let (wr, wbs, wo) = if c.w15 {
            (520u32, 350u32, 580u32)
        } else {
            (860u32, 740u32, 820u32)
        };
        let x = push_cause_s(push_cause_s(b, "Rails alim / SMC / PMU"@, wr), "Communication batterie ou thermique vers SMC"@, wbs);
        let y = if has(c.joined, "outbox1"@) || c.any_outbox {
            push_cause_s(x, "Lignes SMC / donn\u{c3}\u{a9}es capteurs (OUTBOX)"@, wo)
        } else {
            x
        };
        add_check_s(add_check_s(y, "USB-C ou nappe charge (rails)"@), "Capteurs thermiques \u{e2}\u{2020}\u{2019} SMC"@)
    } else if has(n, "outbox1"@) {
        let w: u32 = if c.w15 {
            480
        } else {
            800
        };
        add_check_s(push_cause_s(b, "File SMC \u{e2}\u{20ac}\u{201d} capteurs / charge non pr\u{c3}\u{aa}ts"@, w), "Bloc charge + bus capteurs basse niveau"@)
    } else if has(n, "bsc failure"@) {
        let w: u32 = if c.w15 {
            320
        } else {
            770
        };
        let x = add_check_s(push_cause_s(b, "BSC / liaison batterie-bus syst\u{c3}\u{a8}me"@, w), "Battery BMS et connecteur batterie"@);
        if c.missing.len() > 0 || has(c.joined, "missing sensor"@) {
            add_check_s(x, "SMC BSC + capteur / missing sensor : privil\u{c3}\u{a9}gier p\u{c3}\u{a9}riph\u{c3}\u{a9}rique absent avant PMIC mort (atelier)."@)
        } else {
            x
        }
    } else if has(n, "ans2"@) {
        add_check_s(add_check_s(push_cause_s(b, "NAND / contr\u{c3}\u{b4}leur stockage / interposer CPU\u{e2}\u{20ac}\u{201c}NAND"@, 920), "Stress stockage / health NAND"@), "ANS2 : sur 13+ apr\u{c3}\u{a8}s s\u{c3}\u{a9}paration carte \u{e2}\u{20ac}\u{201d} penser soudure NAND / rails donn\u{c3}\u{a9}es (pas seulement \u{c2}\u{ab} SSD \u{c2}\u{bb} g\u{c3}\u{a9}n\u{c3}\u{a9}rique)."@)
    } else if has(n, "no valid cfg"@) {
        add_check_s(push_cause_s(b, "NAND / corruption stockage \u{c2}\u{b7} \u{c2}\u{ab} No valid CFG \u{c2}\u{bb} (corr\u{c3}\u{a9}lation atelier forte)"@, 880), "No valid CFG : NAND / config stockage \u{e2}\u{20ac}\u{201d} croiser ANS2 et historique swap."@)
    } else if has(n, "baseband panic"@) {
        add_check_s(
            add_check_s(
                push_cause_s(push_cause_s(push_cause_s(b, "Modem baseband / BB_CPU"@, 820), "S\u{c3}\u{a9}paration interposer / RF (m\u{c3}\u{a9}canique)"@, 520), "Cause logicielle / eSIM / profil op\u{c3}\u{a9}rateur (\u{c3}\u{a0} \u{c3}\u{a9}carter avant RF)"@, 450),
                "Zone baseband / RF shield"@,
            ),
            "Baseband panic : pi\u{c3}\u{a8}ge atelier \u{e2}\u{20ac}\u{201d} RF, alim BB, eSIM ou iOS ; ne pas conclure hardware seul."@,
        )
    } else if has(n, "sep panic"@) {
        add_check_s(push_cause_s(push_cause_s(b, "Secure Enclave / Face ID pair\u{c3}\u{a9}e"@, 900), "Incompatibilit\u{c3}\u{a9} NAND sans repro SE (swap)"@, 680), "Historique Face ID / TrueDepth"@)
    } else if has(n, "missing sensor"@) || (has(n, "capteur absent"@) && c.missing.len() > 0) {
        let nappe: u32 = if missing_lists(c.missing, "mic2"@) || missing_lists(c.missing, "mic1"@) || has(n, "mic2"@) || has(n, "mic1"@) {
            580
        } else {
            760
        };
        add_check_s(
            add_check_s(push_cause_s(push_cause_s(b, "Nappe / dock ou FPC reli\u{c3}\u{a9} aux capteurs list\u{c3}\u{a9}s manquants"@, nappe), "Module cam\u{c3}\u{a9}ra / lidar si capteur optique nomin\u{c3}\u{a9}"@, 610), "Isolation capteurs list\u{c3}\u{a9}s comme manquants"@),
            "Table capteurs / thermalmonitord : iFixit FR \u{e2}\u{20ac}\u{201d} lire la ligne \u{c2}\u{ab} missing sensor \u{c2}\u{bb} au-del\u{c3}\u{a0} du premier panicString."@,
        )
    } else {
        b
    }
}

/// The first rule whose marker the lowercased signature `n` holds.
pub open spec fn signature_rule(b: BoardView, n: Seq<char>, c: SigContext) -> BoardView {
    match signature_rule_a(b, n, c) {
        Some(x) => x,
        None => signature_rule_b(b, n, c),
    }
}

pub open spec fn signature_rules(b: BoardView, norm: Seq<Seq<char>>, k: nat, c: SigContext) -> BoardView
    decreases k,
{
    if k == 0 || k > norm.len() {
        b
    } else {
        signature_rule(signature_rules(b, norm, (k - 1) as nat, c), norm[k - 1], c)
    }
}

pub open spec fn sig_context(
    marketing: Option<&str>,
    product: Option<&str>,
    device: Option<&str>,
    missing: Seq<String>,
    joined: Seq<char>,
    any_outbox: bool,
    w15: bool,
    audio: bool,
    batt: bool,
) -> SigContext {
    SigContext {
        marketing: opt_str_view(marketing),
        product: opt_str_view(product),
        device: opt_str_view(device),
        missing: strs(missing),
        joined,
        any_outbox,
        w15,
        audio,
        batt,
    }
}

fn signature_rule_a_exec(
    board: &mut CauseBoard,
    n: &[char],
    marketing: Option<&str>,
    product: Option<&str>,
    device: Option<&str>,
    audio: bool,
    batt: bool,
    w15: bool,
    Ghost(c): Ghost<SigContext>,
) -> (matched: bool)
    requires
        c.marketing == opt_str_view(marketing),
        c.product == opt_str_view(product),
        c.device == opt_str_view(device),
        c.audio == audio,
        c.batt == batt,
        c.w15 == w15,
    ensures
        matched == signature_rule_a(bv(*old(board)), n@, c) is Some,
        matched ==> Some(bv(*final(board))) == signature_rule_a(bv(*old(board)), n@, c),
        !matched ==> *final(board) == *old(board),
{
    if contains_str(n, "mic2 interrupt") {
        if is_iphone_7_family(marketing, product) {
            cause(board, "Audio IC (U3500)", 970);
            check(board, "Mesure lignes MIC2 / ligne I\u{c2}\u{b2}S");
            check(board, "Reflow / repro Audio IC selon gabarit");
        } else if is_mic2_earpiece_generation(product, device) {
            if is_iphone11_family_product(product, device) {
                cause(board, "MIC2 interrupt \u{c2}\u{b7} iPhone 11 \u{c2}\u{b7} Nappe bouton power \u{c2}\u{b7} Micro c\u{c3}\u{b4}t\u{c3}\u{a9} flash", 860);
                cause(board, "Audio IC (U3500) seulement apr\u{c3}\u{a8}s exclusion nappe power et bus audio", 420);
                check(board, "MIC2 interrupt s\u{c3}\u{a9}rie 11 : nappe bouton power (micro flash), pas \u{c3}\u{a9}couteur en premier.");
            } else {
                cause(board, "\u{c3}\u{2030}couteur interne / pr\u{c3}\u{a9}-ensemble avant (MIC2 interrupt \u{e2}\u{20ac}\u{201d} corr\u{c3}\u{a9}lation forte X\u{e2}\u{2020}\u{2019}12)", 850);
                cause(board, "Audio IC (U3500) seulement apr\u{c3}\u{a8}s exclusion nappe \u{c3}\u{a9}couteur", 480);
                check(board, "MIC2 interrupt hors iPhone 7 : isoler pr\u{c3}\u{a9}-ensemble \u{c3}\u{a9}couteur + FPC avant U3500.");
            }
        } else {
            cause(board, "Audio IC (U3500)", 720);
            check(board, "Mesure lignes MIC2 / ligne I\u{c2}\u{b2}S");
            check(board, "Reflow / repro Audio IC selon gabarit");
        }
        return true;
    }
    if contains_str(n, "thermalmonitord") || contains_str(n, "no successful checkins") {
        let (wt, wd, wb): (u32, u32, u32) = if w15 {
            (340, 380, 220)
        } else if audio && !batt {
            (520, 440, 350)
        } else if batt {
            (900, 810, 850)
        } else {
            (910, 840, 720)
        };
        cause(board, "Cha\u{c3}\u{ae}ne thermique / rapport temp\u{c3}\u{a9}ratures", wt);
        cause(board, "Nappe charge / dock (chemins donn\u{c3}\u{a9}es capteurs)", wd);
        cause(board, "Communication batterie (Gas gauge / BMS)", wb);
        if audio && !batt {
            cause(board, "thermalmonitord sans check-ins (effet capteur/bus \u{e2}\u{20ac}\u{201d} pas forc\u{c3}\u{a9}ment surchauffe)", 640);
            check(board, "Ne pas conclure surchauffe r\u{c3}\u{a9}elle sans autre motif thermique dans le panic");
        }
        if !audio && !batt {
            check(board, "thermalmonitord seul sans capteur manquant : souvent sympt\u{c3}\u{b4}me bus \u{e2}\u{20ac}\u{201d} \u{e2}\u{2030}\u{a0} preuve panne thermique CPU (atelier).");
        }
        check(board, "Nappe charge et connecteur");
        check(board, "Sonde thermique / lignes I2C capteurs");
        check(board, "Connecteur battery FPC");
        return true;
    }
    if contains_str(n, "userspace watchdog") || ends_with_str(n, "watchdog timeout") {
        cause(board, "Blocage watchdog (periph I2C / capteurs)", 720);
        cause(board, "PMIC / rails instables possibles", 580);
        check(board, "Rails alim basse tension (mesure)");
        check(board, "userspace watchdog : signature souvent g\u{c3}\u{a9}n\u{c3}\u{a9}rique \u{e2}\u{20ac}\u{201d} \u{c3}\u{a9}carter iOS / restore avant hardware seul (surtout 14/15).");
        return true;
    }
    if contains_str(n, "aop nmi power") {
        cause(board, "Nappe bouton Power ou assemblage cam\u{c3}\u{a9}ra avant (AOP NMI POWER \u{e2}\u{20ac}\u{201d} iFixit)", 820);
        check(board, "AOP NMI POWER : iFixit \u{e2}\u{20ac}\u{201d} c\u{c3}\u{a2}ble Power ou cam\u{c3}\u{a9}ra avant ; isoler avant carte.");
        return true;
    }
    if contains_str(n, "applesochot") {
        cause(board, "Surchauffe SoC / ligne alim SoC ou d\u{c3}\u{a9}faut carte (AppleSocHot \u{e2}\u{20ac}\u{201d} souvent carte, pas flex)", 760);
        check(board, "AppleSocHot : iFixit \u{e2}\u{20ac}\u{201d} v\u{c3}\u{a9}rifier zones r\u{c3}\u{a9}par\u{c3}\u{a9}es ; Wi\u{e2}\u{20ac}\u{2018}Fi / audio carte souvent en cause.");
        return true;
    }
    if contains_str(n, "undefined kernel instruction") {
        cause(board, "Instruction noyau non d\u{c3}\u{a9}finie \u{e2}\u{20ac}\u{201d} cause logicielle fr\u{c3}\u{a9}quente (mise \u{c3}\u{a0} jour / restore)", 550);
        check(board, "iFixit : si persiste apr\u{c3}\u{a8}s restore complet \u{e2}\u{20ac}\u{201d} penser RAM / NAND / carte.");
        return true;
    }
    if contains_str(n, "aop panic") {
        let fx: u32 = if is_iphone_x_class(marketing) {
            900
        } else {
            780
        };
        cause(board, "Nappe Face ID / capteurs avant", fx);
        cause(board, "Haut-parleur / flood illuminator (ligne avant)", 720);
        check(board, "Nappe avant + proximity / flood");
        check(board, "AOP PANIC : plusieurs p\u{c3}\u{a9}riph\u{c3}\u{a9}riques avant possibles \u{e2}\u{20ac}\u{201d} ne pas arr\u{c3}\u{aa}ter un seul composant sans isolement.");
        return true;
    }
    false
}

fn signature_rule_b_exec(
    board: &mut CauseBoard,
    n: &[char],
    missing: &[String],
    joined: &[char],
    any_outbox: bool,
    w15: bool,
    Ghost(c): Ghost<SigContext>,
)
    requires
        c.missing == strs(missing@),
        c.joined == joined@,
        c.any_outbox == any_outbox,
        c.w15 == w15,
    ensures
        bv(*final(board)) == signature_rule_b(bv(*old(board)), n@, c),
{
    if contains_str(n, "smc panic") || contains_str(joined, "bsc failure") {
        let (wr, wbs, wo): (u32, u32, u32) = if w15 {
            (520, 350, 580)
        } else {
            (860, 740, 820)
        };
        cause(board, "Rails alim / SMC / PMU", wr);
        cause(board, "Communication batterie ou thermique vers SMC", wbs);
        if contains_str(joined, "outbox1") || any_outbox {
            cause(board, "Lignes SMC / donn\u{c3}\u{a9}es capteurs (OUTBOX)", wo);
        }
        check(board, "USB-C ou nappe charge (rails)");
        check(board, "Capteurs thermiques \u{e2}\u{2020}\u{2019} SMC");
    } else if contains_str(n, "outbox1") {
        let w: u32 = if w15 {
            480
        } else {
            800
        };
        cause(board, "File SMC \u{e2}\u{20ac}\u{201d} capteurs / charge non pr\u{c3}\u{aa}ts", w);
        check(board, "Bloc charge + bus capteurs basse niveau");
    } else if contains_str(n, "bsc failure") {
        let w: u32 = if w15 {
            320
        } else {
            770
        };
        cause(board, "BSC / liaison batterie-bus syst\u{c3}\u{a8}me", w);
        check(board, "Battery BMS et connecteur batterie");
        if missing.len() > 0 || contains_str(joined, "missing sensor") {
            check(board, "SMC BSC + capteur / missing sensor : privil\u{c3}\u{a9}gier p\u{c3}\u{a9}riph\u{c3}\u{a9}rique absent avant PMIC mort (atelier).");
        }
    } else if contains_str(n, "ans2") {
        cause(board, "NAND / contr\u{c3}\u{b4}leur stockage / interposer CPU\u{e2}\u{20ac}\u{201c}NAND", 920);
        check(board, "Stress stockage / health NAND");
        check(board, "ANS2 : sur 13+ apr\u{c3}\u{a8}s s\u{c3}\u{a9}paration carte \u{e2}\u{20ac}\u{201d} penser soudure NAND / rails donn\u{c3}\u{a9}es (pas seulement \u{c2}\u{ab} SSD \u{c2}\u{bb} g\u{c3}\u{a9}n\u{c3}\u{a9}rique).");
    } else if contains_str(n, "no valid cfg") {
        cause(board, "NAND / corruption stockage \u{c2}\u{b7} \u{c2}\u{ab} No valid CFG \u{c2}\u{bb} (corr\u{c3}\u{a9}lation atelier forte)", 880);
        check(board, "No valid CFG : NAND / config stockage \u{e2}\u{20ac}\u{201d} croiser ANS2 et historique swap.");
    } else if contains_str(n, "baseband panic") {
        cause(board, "Modem baseband / BB_CPU", 820);
        cause(board, "S\u{c3}\u{a9}paration interposer / RF (m\u{c3}\u{a9}canique)", 520);
        cause(board, "Cause logicielle / eSIM / profil op\u{c3}\u{a9}rateur (\u{c3}\u{a0} \u{c3}\u{a9}carter avant RF)", 450);
        check(board, "Zone baseband / RF shield");
        check(board, "Baseband panic : pi\u{c3}\u{a8}ge atelier \u{e2}\u{20ac}\u{201d} RF, alim BB, eSIM ou iOS ; ne pas conclure hardware seul.");
    } else if contains_str(n, "sep panic") {
        cause(board, "Secure Enclave / Face ID pair\u{c3}\u{a9}e", 900);
        cause(board, "Incompatibilit\u{c3}\u{a9} NAND sans repro SE (swap)", 680);
        check(board, "Historique Face ID / TrueDepth");
    } else if contains_str(n, "missing sensor") || (contains_str(n, "capteur absent") && missing.len() > 0) {
        let nappe: u32 = if missing_has(missing, "mic2") || missing_has(missing, "mic1") || contains_str(n, "mic2") || contains_str(
            n,
            "mic1",
        ) {
            580
        } else {
            760
        };
        cause(board, "Nappe / dock ou FPC reli\u{c3}\u{a9} aux capteurs list\u{c3}\u{a9}s manquants", nappe);
        cause(board, "Module cam\u{c3}\u{a9}ra / lidar si capteur optique nomin\u{c3}\u{a9}", 610);
        check(board, "Isolation capteurs list\u{c3}\u{a9}s comme manquants");
        check(board, "Table capteurs / thermalmonitord : iFixit FR \u{e2}\u{20ac}\u{201d} lire la ligne \u{c2}\u{ab} missing sensor \u{c2}\u{bb} au-del\u{c3}\u{a0} du premier panicString.");
    }
}

// ---------------------------------------------------------------------------
// After the signatures
// ---------------------------------------------------------------------------
/// With nothing found so far, the `bug_type` of the report gives a cause.
pub open spec fn bug_rules(b: BoardView, bug_type: Option<Seq<char>>, audio: bool, batt: bool) -> BoardView {
    if b.causes.len() > 0 {
        b
    } else {
        match bug_type {
            Some(bt) => match bug_type_name(bt) {
                Some(label) => {
                    let demote = label == "thermal issue"@ && audio && !batt;
                    let wt: u32 = if label == "watchdog timeout"@ {
                        700
                    } else if label == "thermal issue"@ {
                        if demote {
                            480
                        } else {
                            750
                        }
                    } else if label == "baseband panic"@ {
                        820
                    } else if label == "kernel panic"@ {
                        550
                    } else {
                        500
                    };
                    let x = add_check_s(push_cause_s(b, "Type bug "@ + bt + " ("@ + label + ")"@, wt), "Relire panicString apr\u{c3}\u{a8}s extraction courte"@);
                    if demote {
                        add_check_s(x, "Bug thermique IOS : corroborer avec capteurs manquants/bus avant axe batterie dock"@)
                    } else {
                        x
                    }
                },
                None => b,
            },
            None => b,
        }
    }
}

/// Recent generations: the USB-C / PMU subsystem when the signatures speak
/// of an SMC panic or of heat.
pub open spec fn marketing_rule(b: BoardView, marketing: Option<Seq<char>>, joined: Seq<char>, w15: bool) -> BoardView {
    match marketing {
        Some(m) => {
            let ml = unicode_lower(m);
            if (has(ml, "iphone 15"@) || has(ml, "iphone 16"@) || has(ml, "iphone 17"@)) && (has(joined, "smc panic"@) || has(
                joined,
                "thermal"@,
            )) && !w15 {
                push_cause_s(b, "Sous-syst\u{c3}\u{a8}me USB-C / PMU ( PMIC )"@, 680)
            } else {
                b
            }
        },
        None => b,
    }
}

/// Every cause rule of a diagnosis, in order: named missing sensors, the
/// iPhone 15 bottom module, the whole log, each normalized signature
/// (lowercased), the `bug_type` fallback, the recent generations.
pub open spec fn cause_rules(
    b: BoardView,
    normalized: Seq<Seq<char>>,
    product: Option<Seq<char>>,
    bug_type: Option<Seq<char>>,
    marketing: Option<Seq<char>>,
    missing: Seq<Seq<char>>,
    l: Seq<char>,
    device: Option<Seq<char>>,
) -> BoardView {
    let norm = normalized.map_values(|s: Seq<char>| unicode_lower(s));
    let joined = join(norm, " | "@);
    let w15 = wireless_15_4(l, product, device);
    let audio = missing_lists(missing, "mic2"@) || missing_lists(missing, "mic1"@);
    let batt = battery_missing(missing);
    let any_outbox = exists|k: int| 0 <= k < norm.len() && has(#[trigger] norm[k], "outbox1"@);
    let c = SigContext { marketing, product, device, missing, joined, any_outbox, w15, audio, batt };
    let b1 = named_sensor_rules(b, missing, marketing, product, device);
    let b2 = bottom_module_rules(b1, l, missing, marketing, product, device);
    let b3 = log_rules(b2, l, missing, product, device);
    let b4 = signature_rules(b3, norm, norm.len(), c);
    let b5 = bug_rules(b4, bug_type, audio, batt);
    marketing_rule(b5, marketing, joined, w15)
}

fn bug_rules_exec(board: &mut CauseBoard, bug_type: Option<&str>, audio: bool, batt: bool)
    ensures
        bv(*final(board)) == bug_rules(bv(*old(board)), opt_str_view(bug_type), audio, batt),
{
    if board.causes.len() > 0 {
        return;
    }
    match bug_type {
        Some(bt) => match bug_type_label(bt) {
            Some(label) => {
                let lc = chars_of(label);
                let demote = eq_str(&lc, "thermal issue") && audio && !batt;
                let wt: u32 = if eq_str(&lc, "watchdog timeout") {
                    700
                } else if eq_str(&lc, "thermal issue") {
                    if demote {
                        480
                    } else {
                        750
                    }
                } else if eq_str(&lc, "baseband panic") {
                    820
                } else if eq_str(&lc, "kernel panic") {
                    550
                } else {
                    500
                };
                let mut name = chars_of("Type bug ");
                append_str(&mut name, bt);
                append_str(&mut name, " (");
                append_str(&mut name, label);
                append_str(&mut name, ")");
                let ns = string_of(&name);
                cause(board, ns.as_str(), wt);
                check(board, "Relire panicString apr\u{c3}\u{a8}s extraction courte");
                if demote {
                    check(board, "Bug thermique IOS : corroborer avec capteurs manquants/bus avant axe batterie dock");
                }
            },
            None => {},
        },
        None => {},
    }
}

fn marketing_rule_exec(board: &mut CauseBoard, marketing: Option<&str>, joined: &[char], w15: bool)
    ensures
        bv(*final(board)) == marketing_rule(bv(*old(board)), opt_str_view(marketing), joined@, w15),
{
    match marketing {
        Some(m) => {
            let ml = to_lowercase(m);
            if (contains_str(&ml, "iphone 15") || contains_str(&ml, "iphone 16") || contains_str(&ml, "iphone 17")) && (contains_str(
                joined,
                "smc panic",
            ) || contains_str(joined, "thermal")) && !w15 {
                cause(board, "Sous-syst\u{c3}\u{a8}me USB-C / PMU ( PMIC )", 680);
            }
        },
        None => {},
    }
}

/// Writes on the board every cause rule of a diagnosis (`cause_rules`):
/// the part of the scoring that chooses causes, checks and their weights,
/// before any weight is demoted, merged or ranked.
pub fn score_cause_rules(
    board: &mut CauseBoard,
    normalized: &[String],
    product: Option<&str>,
    bug_type: Option<&str>,
    marketing: Option<&str>,
    missing_sensors: &[String],
    log_lc: &str,
    device_for_scoring: Option<&str>,
)
    ensures
        bv(*final(board)) == cause_rules(
            bv(*old(board)),
            strs(normalized@),
            opt_str_view(product),
            opt_str_view(bug_type),
            opt_str_view(marketing),
            strs(missing_sensors@),
            log_lc@,
            opt_str_view(device_for_scoring),
        ),
{
    let ghost nv = strs(normalized@).map_values(|s: Seq<char>| unicode_lower(s));
    let mut norm: Vec<Vec<char>> = Vec::new();
    let mut i: usize = 0;
    while i < normalized.len()
        invariant
            i <= normalized.len(),
            nv == strs(normalized@).map_values(|s: Seq<char>| unicode_lower(s)),
            views(norm@) == nv.take(i as int),
        decreases normalized.len() - i,
    {
        let lc = to_lowercase(normalized[i].as_str());
        let ghost before = views(norm@);
        norm.push(lc);
        assert(views(norm@) =~= before.push(nv[i as int]));
        assert(nv.take(i + 1) =~= nv.take(i as int).push(nv[i as int]));
        i += 1;
    }
    assert(nv.take(normalized.len() as int) =~= nv);
    let sep = chars_of(" | ");
    let joined = join_exec(&norm, &sep);
    let mut any_outbox = false;
    let mut k: usize = 0;
    while k < norm.len()
        invariant
            k <= norm.len(),
            views(norm@) == nv,
            any_outbox == exists|j: int| 0 <= j < k && has(#[trigger] nv[j], "outbox1"@),
        decreases norm.len() - k,
    {
        if contains_str(&norm[k], "outbox1") {
            assert(has(nv[k as int], "outbox1"@));
            any_outbox = true;
        }
        k += 1;
    }
    let l = chars_of(log_lc);
    let w15 = is_iphone15_4_product(product, device_for_scoring) && iphone15_4_wireless_smc_fingerprint(log_lc);
    let audio = missing_has(missing_sensors, "mic2") || missing_has(missing_sensors, "mic1");
    let batt = missing_battery_hint(missing_sensors);
    let ghost c = sig_context(marketing, product, device_for_scoring, missing_sensors@, joined@, any_outbox, w15, audio, batt);
    score_named_missing_sensors(board, missing_sensors, marketing, product, device_for_scoring);
    score_iphone15_bottom_mic_module(board, log_lc, missing_sensors, marketing, product, device_for_scoring);
    log_rules_exec(board, &l, log_lc, missing_sensors, product, device_for_scoring);
    let ghost b3 = bv(*board);
    let mut j: usize = 0;
    while j < norm.len()
        invariant
            j <= norm.len(),
            views(norm@) == nv,
            c == sig_context(marketing, product, device_for_scoring, missing_sensors@, joined@, any_outbox, w15, audio, batt),
            bv(*board) == signature_rules(b3, nv, j as nat, c),
        decreases norm.len() - j,
    {
        assert(views(norm@)[j as int] == norm@[j as int]@);
        let matched = signature_rule_a_exec(board, &norm[j], marketing, product, device_for_scoring, audio, batt, w15, Ghost(c));
        if !matched {
            signature_rule_b_exec(board, &norm[j], missing_sensors, &joined, any_outbox, w15, Ghost(c));
        }
        j += 1;
    }
    bug_rules_exec(board, bug_type, audio, batt);
    marketing_rule_exec(board, marketing, &joined, w15);
}


// ---------------------------------------------------------------------------
// How the weighing treats a cause by its name
// ---------------------------------------------------------------------------
/// For an iPhone 15,4 whose log carries the wireless SMC fingerprint: the
/// percentage of its weight that a cause keeps, by its lowercased name
/// (`str::to_lowercase`). Wireless causes keep all of it.
pub open spec fn wireless_demotion(name: Seq<char>) -> u8 {
    let lk = unicode_lower(name);
    if has(lk, "wireless charging"@) || has(lk, "magsafe"@) || has(lk, "qi \u{e2}\u{20ac}\u{201d}"@) || has(lk, "qi /"@) {
        100
    } else if has(lk, "bsc / liaison batterie-bus"@) || (has(lk, "bms"@) && has(lk, "bsc"@)) {
        26
    } else if has(lk, "communication batterie"@) || has(lk, "gas gauge"@) || has(lk, "battery fpc"@) {
        30
    } else if has(lk, "cha\u{c3}\u{ae}ne thermique"@) || has(lk, "rapport temp\u{c3}\u{a9}ratures"@) {
        36
    } else if has(lk, "rails alim"@) && has(lk, "smc"@) && !(has(lk, "qi"@)) {
        52
    } else if has(lk, "pmic"@) || (has(lk, "pmu"@) && !(has(lk, "wireless"@))) {
        48
    } else if has(lk, "usb-c"@) || (has(lk, "dock"@) && has(lk, "nappe charge"@)) {
        42
    } else {
        100
    }
}

/// The percentage of its weight that a cause keeps (`wireless_demotion`).
pub fn wireless_demotion_percent(name: &str) -> (r: u8)
    ensures
        r == wireless_demotion(name@),
{
    let lk = to_lowercase(name);
    if contains_str(&lk, "wireless charging") || contains_str(&lk, "magsafe") || contains_str(&lk, "qi \u{e2}\u{20ac}\u{201d}")
        || contains_str(&lk, "qi /") {
        100
    } else if contains_str(&lk, "bsc / liaison batterie-bus") || (contains_str(&lk, "bms") && contains_str(&lk, "bsc")) {
        26
    } else if contains_str(&lk, "communication batterie") || contains_str(&lk, "gas gauge") || contains_str(&lk, "battery fpc") {
        30
    } else if contains_str(&lk, "cha\u{c3}\u{ae}ne thermique") || contains_str(&lk, "rapport temp\u{c3}\u{a9}ratures") {
        36
    } else if contains_str(&lk, "rails alim") && contains_str(&lk, "smc") && !contains_str(&lk, "qi") {
        52
    } else if contains_str(&lk, "pmic") || (contains_str(&lk, "pmu") && !contains_str(&lk, "wireless")) {
        48
    } else if contains_str(&lk, "usb-c") || (contains_str(&lk, "dock") && contains_str(&lk, "nappe charge")) {
        42
    } else {
        100
    }
}

/// A cause whose lowercased name speaks of a sensor (raised when sensors
/// are missing).
pub open spec fn sensor_cause(name: Seq<char>) -> bool {
    let n = unicode_lower(name);
    has(n, "capteur"@) || has(n, "mic"@) || has(n, "prs"@) || has(n, "tg0"@) || has(n, "bms"@)
}

/// A cause whose lowercased name is generic (lowered).
pub open spec fn generic_cause(name: Seq<char>) -> bool {
    let n = unicode_lower(name);
    has(n, "g\u{c3}\u{a9}n\u{c3}\u{a9}rique"@) || has(n, "type bug"@) || has(n, "logicielle fr\u{c3}\u{a9}quente"@)
}

/// Whether a cause speaks of a sensor and whether it is generic.
pub fn cause_marks(name: &str) -> (r: (bool, bool))
    ensures
        r.0 == sensor_cause(name@),
        r.1 == generic_cause(name@),
{
    let n = to_lowercase(name);
    let sensor = contains_str(&n, "capteur") || contains_str(&n, "mic") || contains_str(&n, "prs") || contains_str(&n, "tg0")
        || contains_str(&n, "bms");
    let generic = contains_str(&n, "g\u{c3}\u{a9}n\u{c3}\u{a9}rique") || contains_str(&n, "type bug")
        || contains_str(&n, "logicielle fr\u{c3}\u{a9}quente");
    (sensor, generic)
}

} // verus!
