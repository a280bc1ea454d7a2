//! Causes and checks read from the PANIC LOGS chart: one row per marker
//! found in the lowercased log, plus a hint when an I²C bus is cited.
use crate::findings::{BoardView, CauseBoard, add_check_s, add_ui_s, board_grows, board_view, group_board_grows, push_cause_s};
use crate::text::{append_str, chars_of, contains_str, dec_text, dec_text_exec, owned, seq_contains, string_of, strs, trim, trim_chars};
use crate::knowledge::opt_str_view;
use crate::patterns::{regex_find_first, regex_first};
use vstd::prelude::*;

verus! {

/// One row of the chart: marker, cause, weight (thousandths), check.
pub type ChartRow = (Seq<char>, Seq<char>, u32, Seq<char>);

pub open spec fn chart_rows() -> Seq<ChartRow> {
    seq![
        ("ememory"@, "eMemory / stockage NAND ou circuit disque (PANIC LOGS chart)"@, 680u32, "Chart : eMemory \u{e2}\u{2020}\u{2019} NAND / disque ; croiser ANS2 / NVMe."@),
        ("anc-postnand"@, "Lien NAND post-init (anc-postnand \u{e2}\u{20ac}\u{201d} chart)"@, 700u32, "Chart : anc-postnand \u{e2}\u{2020}\u{2019} erreur NAND / liaison ; microsoudure / interposer."@),
        ("applebcmwlan"@, "Wi\u{e2}\u{20ac}\u{2018}Fi / Bluetooth (AppleBCMWLAN \u{e2}\u{20ac}\u{201d} chart)"@, 640u32, "Chart : AppleBCMWLAN \u{e2}\u{2020}\u{2019} module Wi\u{e2}\u{20ac}\u{2018}Fi/BT, antenne, RF."@),
        ("amcc error"@, "Capteur luminosit\u{c3}\u{a9} / AMCC (chart)"@, 580u32, "Chart : AMCC Error \u{e2}\u{2020}\u{2019} capteur lumi\u{c3}\u{a8}re / ligne associ\u{c3}\u{a9}e."@),
        ("pmp nmi fiq"@, "Alimentation CPU (PMP NMI FIQ \u{e2}\u{20ac}\u{201d} chart)"@, 640u32, "Chart : PMP NMI FIQ \u{e2}\u{2020}\u{2019} rails CPU, inductances autour SoC."@),
        ("apple ppm"@, "Apple PPM \u{e2}\u{20ac}\u{201d} charge / d\u{c3}\u{a9}charge (chart)"@, 600u32, "Chart : Apple PPM \u{e2}\u{2020}\u{2019} IC charge, conversion batterie, BMS."@),
        ("apple pmgr"@, "Apple PMGR \u{e2}\u{20ac}\u{201d} gestion alim (chart)"@, 600u32, "Chart : Apple PMGR \u{e2}\u{2020}\u{2019} rails PMU/PMGR, buck CPU."@),
        ("cp_com_norm"@, "CP_COM_NORM \u{e2}\u{20ac}\u{201d} CPU / stockage / cam\u{c3}\u{a9}ra (chart)"@, 580u32, "Chart : CP_COM_NORM REQUEST \u{e2}\u{2020}\u{2019} tri CPU, disque, bus cam\u{c3}\u{a9}ra selon contexte."@),
        ("cp com norm"@, "CP com NORM \u{e2}\u{20ac}\u{201d} CPU / stockage / cam\u{c3}\u{a9}ra (chart)"@, 580u32, "Chart : variante CP com NORM \u{e2}\u{20ac}\u{201d} m\u{c3}\u{aa}me logique multi-pistes."@),
        ("dart-disp"@, "Dart display / SMMU \u{e2}\u{20ac}\u{201d} cam\u{c3}\u{a9}ra arri\u{c3}\u{a8}re ou bus (chart)"@, 660u32, "Chart : Dart-disp SMMU \u{e2}\u{2020}\u{2019} cam\u{c3}\u{a9}ra arri\u{c3}\u{a8}re, bus cam\u{c3}\u{a9}ra, flex arri\u{c3}\u{a8}re."@),
        ("dart-dispo"@, "Dart display / SMMU \u{e2}\u{20ac}\u{201d} cam\u{c3}\u{a9}ra (chart)"@, 660u32, "Chart : Dart-dispo \u{e2}\u{2020}\u{2019} cam\u{c3}\u{a9}ra principale / bus."@),
        ("invalid queue element"@, "Invalid queue element \u{e2}\u{20ac}\u{201d} soudure / NAND (chart)"@, 650u32, "Chart : invalid queue \u{e2}\u{2020}\u{2019} disque mal soud\u{c3}\u{a9} ou NAND ; refaire BGA si doute."@),
        ("invaild queue element"@, "Invalid queue (typo \u{c2}\u{ab} invaild \u{c2}\u{bb} dans log) \u{e2}\u{20ac}\u{201d} NAND / soudure (chart)"@, 650u32, "Chart : invaild queue element (typo fr\u{c3}\u{a9}quente) \u{e2}\u{2020}\u{2019} idem NAND/soudure."@),
        ("agxg10p"@, "AGXG10P BO NMI \u{e2}\u{20ac}\u{201d} d\u{c3}\u{a9}faut couche carte (chart)"@, 620u32, "Chart : AGXG10P \u{e2}\u{2020}\u{2019} couche carte / sandwich, pas simple flex."@),
        ("agxaccelerator"@, "AGX / gyro / acc\u{c3}\u{a9}l\u{c3}\u{a9}rom\u{c3}\u{a8}tre / coprocesseur (chart)"@, 600u32, "Chart : AGXAccelerator \u{e2}\u{2020}\u{2019} gyro, acc\u{c3}\u{a9}l\u{c3}\u{a9}ro, copro graphique."@),
        ("sks request timeout"@, "SKS request timeout \u{e2}\u{20ac}\u{201d} ligne CPU \u{e2}\u{2020}\u{201d} puce logique (chart)"@, 620u32, "Chart : sks timeout \u{e2}\u{2020}\u{2019} continuit\u{c3}\u{a9} CPU\u{e2}\u{20ac}\u{201c}logic board / interposer."@),
        ("initproc exited"@, "initproc exited \u{e2}\u{20ac}\u{201d} quartz / horloge principale (chart)"@, 560u32, "Chart : initproc exited \u{e2}\u{2020}\u{2019} quartz principal, oscillateur, rails horloge."@),
        ("bad tailq elm"@, "Bad tailq elm \u{e2}\u{20ac}\u{201d} quartz / horloge (chart)"@, 560u32, "Chart : bad tailq \u{e2}\u{2020}\u{2019} m\u{c3}\u{aa}me famille que initproc (horloge)."@),
        ("prev- next"@, "Prev-next \u{e2}\u{20ac}\u{201d} quartz (chart)"@, 540u32, "Chart : prev-next / prew-next \u{e2}\u{2020}\u{2019} quartz (variante OCR)."@),
        ("prew-next"@, "Prew-next \u{e2}\u{20ac}\u{201d} quartz (chart)"@, 540u32, "Chart : prew-next \u{e2}\u{2020}\u{2019} quartz."@),
        ("firmware fatal"@, "Firmware fatal \u{e2}\u{20ac}\u{201d} couche basse / restore (chart)"@, 520u32, "Chart : firmware fatal \u{e2}\u{2020}\u{2019} restore / iOS ; puis NAND si persistant."@),
        ("nvme"@, "NVMe \u{e2}\u{20ac}\u{201d} stockage soud\u{c3}\u{a9} / contr\u{c3}\u{b4}leur (chart)"@, 700u32, "Chart : nvme \u{e2}\u{2020}\u{2019} disque NVMe, lignes donn\u{c3}\u{a9}es, soudure."@),
        ("tristar2"@, "Tristar2 / USB \u{e2}\u{20ac}\u{201d} connecteur charge (chart)"@, 680u32, "Chart : Apple Tristar2 / system id \u{e2}\u{2020}\u{2019} dock / connecteur interne."@),
        ("wkdmd error"@, "WKDMD error \u{e2}\u{20ac}\u{201d} flash / stockage (chart cite code 0x2)"@, 580u32, "Chart : WKDMD ERROR \u{e2}\u{2020}\u{2019} NAND/flash ; noter code 0x2 si pr\u{c3}\u{a9}sent."@),
        ("mic-temp-sens2"@, "mic-temp-sens2 \u{e2}\u{20ac}\u{201d} nappe power / MIC thermique (chart)"@, 640u32, "Chart : mic-temp-sens2 \u{e2}\u{2020}\u{2019} nappe alimentation, MIC, sonde."@),
        ("applesynopsysmipi"@, "AppleSynopsysMIPIDSI \u{e2}\u{20ac}\u{201d} nappe cam\u{c3}\u{a9}ra avant / \u{c3}\u{a9}cran (chart)"@, 620u32, "Chart : Synopsys MIPI DSI \u{e2}\u{2020}\u{2019} flex avant, \u{c3}\u{a9}cran, cam\u{c3}\u{a9}ra avant."@),
        ("smc data abort"@, "SMC DATA ABORT \u{e2}\u{20ac}\u{201d} communication CPU anormale (chart)"@, 630u32, "Chart : SMC DATA ABORT \u{e2}\u{2020}\u{2019} rails CPU, SMC, pas seulement flex."@),
        ("sleep\\wake hang"@, "Sleep/wake hang \u{e2}\u{20ac}\u{201d} audio puis alim CPU (chart)"@, 590u32, "Chart : sleep/wake hang \u{e2}\u{2020}\u{2019} circuits audio d\u{e2}\u{20ac}\u{2122}abord, puis alim CPU."@),
        ("sleep/wake hang"@, "Sleep/wake hang \u{e2}\u{20ac}\u{201d} audio puis alim CPU (chart)"@, 590u32, "Chart : sleep/wake hang \u{e2}\u{2020}\u{2019} audio puis rails CPU."@),
        ("kernel command stop"@, "Kernel command stop \u{e2}\u{20ac}\u{201d} quick charge IC ou bus CPU (chart)"@, 570u32, "Chart : kernel command stop \u{e2}\u{2020}\u{2019} IC charge rapide, communication CPU."@),
        ("a freed zone element has been"@, "Freed zone element modified \u{e2}\u{20ac}\u{201d} soudure CPU (chart)"@, 600u32, "Chart : freed zone element \u{e2}\u{2020}\u{2019} soudure CPU / corruption m\u{c3}\u{a9}moire noyau."@),
        ("l2c llc"@, "L2C / LLC \u{e2}\u{20ac}\u{201d} audio, cam\u{c3}\u{a9}ra avant (chart)"@, 580u32, "Chart : L2C LLC Mux \u{e2}\u{2020}\u{2019} audio, nappe cam\u{c3}\u{a9}ra avant."@),
        ("gfx gpu"@, "GFX / GPU \u{e2}\u{20ac}\u{201d} GPU ou carte (chart)"@, 580u32, "Chart : GFX GPU \u{e2}\u{2020}\u{2019} GPU soud\u{c3}\u{a9}, couche carte (8/8s cit\u{c3}\u{a9}s dans doc)."@),
        ("apcie("@, "aPCIe / stockage PCIe (chart)"@, 660u32, "Chart : apcie(\u{e2}\u{20ac}\u{a6} \u{e2}\u{2020}\u{2019} disque / lignes PCIe NAND."@),
        ("aop data abort"@, "AOP DATA ABORT \u{e2}\u{20ac}\u{201d} stockage ou soudure CPU (chart ; croiser contexte)"@, 620u32, "Chart : AOP DATA ABORT \u{e2}\u{2020}\u{2019} disque d\u{e2}\u{20ac}\u{2122}abord (doc), puis soudure CPU si stockage OK."@)
    ]
}

/// The pattern of an I²C bus `i2c0`, `i2c1` or `i2c2` cited as a whole
/// word.
pub open spec fn i2c_bus_pattern() -> Seq<char> {
    "(?i)\\bi2c[012]\\b"@
}

/// Whether the lowercased log cites such a bus: the regex crate finds a
/// match of `i2c_bus_pattern` in it.
pub open spec fn i2c_bus_cited(log_lc: Seq<char>) -> bool {
    regex_first(i2c_bus_pattern(), log_lc) is Some
}

/// The rows `0..n` applied to the board: for each marker found, its check,
/// then its cause; with the number of markers found.
pub open spec fn chart_applied(b: BoardView, log_lc: Seq<char>, n: nat) -> (BoardView, nat)
    decreases n,
{
    if n == 0 || n > chart_rows().len() {
        (b, 0)
    } else {
        let (b1, hits) = chart_applied(b, log_lc, (n - 1) as nat);
        let row = chart_rows()[n - 1];
        if seq_contains(log_lc, row.0) {
            (push_cause_s(add_check_s(b1, row.3), row.1, row.2), hits + 1)
        } else {
            (b1, hits)
        }
    }
}

pub open spec fn nonblank(o: Option<Seq<char>>) -> Option<Seq<char>> {
    match o {
        Some(s) => if trim(s).len() > 0 {
            Some(trim(s))
        } else {
            None
        },
        None => None,
    }
}

/// The check added when an I²C bus is cited, with the product type and the
/// SoC id when they are known.
pub open spec fn i2c_hint_text(product: Option<Seq<char>>, soc: Option<Seq<char>>) -> Seq<char> {
    let base = "Chart PANIC LOGS : bus I\u{c2}\u{b2}C cit\u{c3}\u{a9} dans le log \u{e2}\u{20ac}\u{201d} croiser tableau PDF (nappe / connecteurs par SoC)."@;
    let with_p = match nonblank(product) {
        Some(p) => base + " ProductType: "@ + p + seq!['.'],
        None => base,
    };
    match nonblank(soc) {
        Some(s) => with_p + " socId: "@ + s + seq!['.'],
        None => with_p,
    }
}

pub open spec fn chart_summary_line(hits: nat) -> Seq<char> {
    "PANIC LOGS chart : "@ + dec_text(hits) + " motif(s) du PDF reconnus \u{e2}\u{20ac}\u{201d} voir recommandations d\u{c3}\u{a9}taill\u{c3}\u{a9}es."@
}

/// The whole chart step.
pub open spec fn chart_spec(
    b: BoardView,
    log_lc: Seq<char>,
    product: Option<Seq<char>>,
    soc: Option<Seq<char>>,
    i2c_cited: bool,
) -> BoardView {
    let (b1, hits) = chart_applied(b, log_lc, chart_rows().len());
    let b2 = if hits > 0 {
        add_ui_s(b1, chart_summary_line(hits))
    } else {
        b1
    };
    if i2c_cited {
        add_check_s(b2, i2c_hint_text(product, soc))
    } else {
        b2
    }
}

fn nonblank_exec(o: Option<&str>) -> (r: Option<Vec<char>>)
    ensures
        match r {
            Some(v) => nonblank(opt_str_view(o)) == Some(v@),
            None => nonblank(opt_str_view(o)) is None,
        },
{
    match o {
        Some(s) => {
            let c = chars_of(s);
            let t = trim_chars(&c);
            if t.len() > 0 {
                Some(t)
            } else {
                None
            }
        },
        None => None,
    }
}

/// The I²C hint of the chart, once the regex has told whether a bus is
/// cited.
pub fn i2c_chart_hint(i2c_cited: bool, product: Option<&str>, soc_id: Option<&str>) -> (r: Option<String>)
    ensures
        match r {
            Some(s) => i2c_cited && s@ == i2c_hint_text(opt_str_view(product), opt_str_view(soc_id)),
            None => !i2c_cited,
        },
{
    if !i2c_cited {
        return None;
    }
    let mut msg = chars_of("Chart PANIC LOGS : bus I\u{c2}\u{b2}C cit\u{c3}\u{a9} dans le log \u{e2}\u{20ac}\u{201d} croiser tableau PDF (nappe / connecteurs par SoC).");
    match nonblank_exec(product) {
        Some(p) => {
            append_str(&mut msg, " ProductType: ");
            msg.extend_from_slice(&p);
            msg.push('.');
        },
        None => {},
    }
    match nonblank_exec(soc_id) {
        Some(s) => {
            append_str(&mut msg, " socId: ");
            msg.extend_from_slice(&s);
            msg.push('.');
        },
        None => {},
    }
    Some(string_of(&msg))
}

fn chart_table() -> (r: Vec<(&'static str, &'static str, u32, &'static str)>)
    ensures
        r@.map_values(|t: (&'static str, &'static str, u32, &'static str)| (t.0@, t.1@, t.2, t.3@)) == chart_rows(),
{
    let v: Vec<(&'static str, &'static str, u32, &'static str)> = vec![
        ("ememory", "eMemory / stockage NAND ou circuit disque (PANIC LOGS chart)", 680u32, "Chart : eMemory \u{e2}\u{2020}\u{2019} NAND / disque ; croiser ANS2 / NVMe."),
        ("anc-postnand", "Lien NAND post-init (anc-postnand \u{e2}\u{20ac}\u{201d} chart)", 700u32, "Chart : anc-postnand \u{e2}\u{2020}\u{2019} erreur NAND / liaison ; microsoudure / interposer."),
        ("applebcmwlan", "Wi\u{e2}\u{20ac}\u{2018}Fi / Bluetooth (AppleBCMWLAN \u{e2}\u{20ac}\u{201d} chart)", 640u32, "Chart : AppleBCMWLAN \u{e2}\u{2020}\u{2019} module Wi\u{e2}\u{20ac}\u{2018}Fi/BT, antenne, RF."),
        ("amcc error", "Capteur luminosit\u{c3}\u{a9} / AMCC (chart)", 580u32, "Chart : AMCC Error \u{e2}\u{2020}\u{2019} capteur lumi\u{c3}\u{a8}re / ligne associ\u{c3}\u{a9}e."),
        ("pmp nmi fiq", "Alimentation CPU (PMP NMI FIQ \u{e2}\u{20ac}\u{201d} chart)", 640u32, "Chart : PMP NMI FIQ \u{e2}\u{2020}\u{2019} rails CPU, inductances autour SoC."),
        ("apple ppm", "Apple PPM \u{e2}\u{20ac}\u{201d} charge / d\u{c3}\u{a9}charge (chart)", 600u32, "Chart : Apple PPM \u{e2}\u{2020}\u{2019} IC charge, conversion batterie, BMS."),
        ("apple pmgr", "Apple PMGR \u{e2}\u{20ac}\u{201d} gestion alim (chart)", 600u32, "Chart : Apple PMGR \u{e2}\u{2020}\u{2019} rails PMU/PMGR, buck CPU."),
        ("cp_com_norm", "CP_COM_NORM \u{e2}\u{20ac}\u{201d} CPU / stockage / cam\u{c3}\u{a9}ra (chart)", 580u32, "Chart : CP_COM_NORM REQUEST \u{e2}\u{2020}\u{2019} tri CPU, disque, bus cam\u{c3}\u{a9}ra selon contexte."),
        ("cp com norm", "CP com NORM \u{e2}\u{20ac}\u{201d} CPU / stockage / cam\u{c3}\u{a9}ra (chart)", 580u32, "Chart : variante CP com NORM \u{e2}\u{20ac}\u{201d} m\u{c3}\u{aa}me logique multi-pistes."),
        ("dart-disp", "Dart display / SMMU \u{e2}\u{20ac}\u{201d} cam\u{c3}\u{a9}ra arri\u{c3}\u{a8}re ou bus (chart)", 660u32, "Chart : Dart-disp SMMU \u{e2}\u{2020}\u{2019} cam\u{c3}\u{a9}ra arri\u{c3}\u{a8}re, bus cam\u{c3}\u{a9}ra, flex arri\u{c3}\u{a8}re."),
        ("dart-dispo", "Dart display / SMMU \u{e2}\u{20ac}\u{201d} cam\u{c3}\u{a9}ra (chart)", 660u32, "Chart : Dart-dispo \u{e2}\u{2020}\u{2019} cam\u{c3}\u{a9}ra principale / bus."),
        ("invalid queue element", "Invalid queue element \u{e2}\u{20ac}\u{201d} soudure / NAND (chart)", 650u32, "Chart : invalid queue \u{e2}\u{2020}\u{2019} disque mal soud\u{c3}\u{a9} ou NAND ; refaire BGA si doute."),
        ("invaild queue element", "Invalid queue (typo \u{c2}\u{ab} invaild \u{c2}\u{bb} dans log) \u{e2}\u{20ac}\u{201d} NAND / soudure (chart)", 650u32, "Chart : invaild queue element (typo fr\u{c3}\u{a9}quente) \u{e2}\u{2020}\u{2019} idem NAND/soudure."),
        ("agxg10p", "AGXG10P BO NMI \u{e2}\u{20ac}\u{201d} d\u{c3}\u{a9}faut couche carte (chart)", 620u32, "Chart : AGXG10P \u{e2}\u{2020}\u{2019} couche carte / sandwich, pas simple flex."),
        ("agxaccelerator", "AGX / gyro / acc\u{c3}\u{a9}l\u{c3}\u{a9}rom\u{c3}\u{a8}tre / coprocesseur (chart)", 600u32, "Chart : AGXAccelerator \u{e2}\u{2020}\u{2019} gyro, acc\u{c3}\u{a9}l\u{c3}\u{a9}ro, copro graphique."),
        ("sks request timeout", "SKS request timeout \u{e2}\u{20ac}\u{201d} ligne CPU \u{e2}\u{2020}\u{201d} puce logique (chart)", 620u32, "Chart : sks timeout \u{e2}\u{2020}\u{2019} continuit\u{c3}\u{a9} CPU\u{e2}\u{20ac}\u{201c}logic board / interposer."),
        ("initproc exited", "initproc exited \u{e2}\u{20ac}\u{201d} quartz / horloge principale (chart)", 560u32, "Chart : initproc exited \u{e2}\u{2020}\u{2019} quartz principal, oscillateur, rails horloge."),
        ("bad tailq elm", "Bad tailq elm \u{e2}\u{20ac}\u{201d} quartz / horloge (chart)", 560u32, "Chart : bad tailq \u{e2}\u{2020}\u{2019} m\u{c3}\u{aa}me famille que initproc (horloge)."),
        ("prev- next", "Prev-next \u{e2}\u{20ac}\u{201d} quartz (chart)", 540u32, "Chart : prev-next / prew-next \u{e2}\u{2020}\u{2019} quartz (variante OCR)."),
        ("prew-next", "Prew-next \u{e2}\u{20ac}\u{201d} quartz (chart)", 540u32, "Chart : prew-next \u{e2}\u{2020}\u{2019} quartz."),
        ("firmware fatal", "Firmware fatal \u{e2}\u{20ac}\u{201d} couche basse / restore (chart)", 520u32, "Chart : firmware fatal \u{e2}\u{2020}\u{2019} restore / iOS ; puis NAND si persistant."),
        ("nvme", "NVMe \u{e2}\u{20ac}\u{201d} stockage soud\u{c3}\u{a9} / contr\u{c3}\u{b4}leur (chart)", 700u32, "Chart : nvme \u{e2}\u{2020}\u{2019} disque NVMe, lignes donn\u{c3}\u{a9}es, soudure."),
        ("tristar2", "Tristar2 / USB \u{e2}\u{20ac}\u{201d} connecteur charge (chart)", 680u32, "Chart : Apple Tristar2 / system id \u{e2}\u{2020}\u{2019} dock / connecteur interne."),
        ("wkdmd error", "WKDMD error \u{e2}\u{20ac}\u{201d} flash / stockage (chart cite code 0x2)", 580u32, "Chart : WKDMD ERROR \u{e2}\u{2020}\u{2019} NAND/flash ; noter code 0x2 si pr\u{c3}\u{a9}sent."),
        ("mic-temp-sens2", "mic-temp-sens2 \u{e2}\u{20ac}\u{201d} nappe power / MIC thermique (chart)", 640u32, "Chart : mic-temp-sens2 \u{e2}\u{2020}\u{2019} nappe alimentation, MIC, sonde."),
        ("applesynopsysmipi", "AppleSynopsysMIPIDSI \u{e2}\u{20ac}\u{201d} nappe cam\u{c3}\u{a9}ra avant / \u{c3}\u{a9}cran (chart)", 620u32, "Chart : Synopsys MIPI DSI \u{e2}\u{2020}\u{2019} flex avant, \u{c3}\u{a9}cran, cam\u{c3}\u{a9}ra avant."),
        ("smc data abort", "SMC DATA ABORT \u{e2}\u{20ac}\u{201d} communication CPU anormale (chart)", 630u32, "Chart : SMC DATA ABORT \u{e2}\u{2020}\u{2019} rails CPU, SMC, pas seulement flex."),
        ("sleep\\wake hang", "Sleep/wake hang \u{e2}\u{20ac}\u{201d} audio puis alim CPU (chart)", 590u32, "Chart : sleep/wake hang \u{e2}\u{2020}\u{2019} circuits audio d\u{e2}\u{20ac}\u{2122}abord, puis alim CPU."),
        ("sleep/wake hang", "Sleep/wake hang \u{e2}\u{20ac}\u{201d} audio puis alim CPU (chart)", 590u32, "Chart : sleep/wake hang \u{e2}\u{2020}\u{2019} audio puis rails CPU."),
        ("kernel command stop", "Kernel command stop \u{e2}\u{20ac}\u{201d} quick charge IC ou bus CPU (chart)", 570u32, "Chart : kernel command stop \u{e2}\u{2020}\u{2019} IC charge rapide, communication CPU."),
        ("a freed zone element has been", "Freed zone element modified \u{e2}\u{20ac}\u{201d} soudure CPU (chart)", 600u32, "Chart : freed zone element \u{e2}\u{2020}\u{2019} soudure CPU / corruption m\u{c3}\u{a9}moire noyau."),
        ("l2c llc", "L2C / LLC \u{e2}\u{20ac}\u{201d} audio, cam\u{c3}\u{a9}ra avant (chart)", 580u32, "Chart : L2C LLC Mux \u{e2}\u{2020}\u{2019} audio, nappe cam\u{c3}\u{a9}ra avant."),
        ("gfx gpu", "GFX / GPU \u{e2}\u{20ac}\u{201d} GPU ou carte (chart)", 580u32, "Chart : GFX GPU \u{e2}\u{2020}\u{2019} GPU soud\u{c3}\u{a9}, couche carte (8/8s cit\u{c3}\u{a9}s dans doc)."),
        ("apcie(", "aPCIe / stockage PCIe (chart)", 660u32, "Chart : apcie(\u{e2}\u{20ac}\u{a6} \u{e2}\u{2020}\u{2019} disque / lignes PCIe NAND."),
        ("aop data abort", "AOP DATA ABORT \u{e2}\u{20ac}\u{201d} stockage ou soudure CPU (chart ; croiser contexte)", 620u32, "Chart : AOP DATA ABORT \u{e2}\u{2020}\u{2019} disque d\u{e2}\u{20ac}\u{2122}abord (doc), puis soudure CPU si stockage OK.")
    ];
    assert(v@.map_values(|t: (&'static str, &'static str, u32, &'static str)| (t.0@, t.1@, t.2, t.3@)) =~= chart_rows());
    v
}

/// Applies the chart to the board: for each marker of the chart found in
/// the lowercased log, its check and its cause; a summary line when any was
/// found; the I²C hint when a bus is cited.
pub fn apply_panic_logs_chart_pdf(
    log_lc: &str,
    product_apple_lc: Option<&str>,
    soc_id: Option<&str>,
    board: &mut CauseBoard,
    ui_lines: &mut Vec<String>,
)
    ensures
        board_view(*final(board), final(ui_lines)@) == chart_spec(
            board_view(*old(board), old(ui_lines)@),
            log_lc@,
            opt_str_view(product_apple_lc),
            opt_str_view(soc_id),
            i2c_bus_cited(log_lc@),
        ),
        board_grows(board_view(*old(board), old(ui_lines)@), board_view(*final(board), final(ui_lines)@)),
{
    proof {
        broadcast use group_board_grows;
        lemma_chart_grows(
            board_view(*old(board), old(ui_lines)@),
            board_view(*old(board), old(ui_lines)@),
            log_lc@,
            opt_str_view(product_apple_lc),
            opt_str_view(soc_id),
            i2c_bus_cited(log_lc@),
        );
    }
    let rows = chart_table();
    let ghost rv = rows@.map_values(|t: (&'static str, &'static str, u32, &'static str)| (t.0@, t.1@, t.2, t.3@));
    let log = chars_of(log_lc);
    let ghost b0 = board_view(*board, ui_lines@);
    let mut hits: usize = 0;
    let mut i: usize = 0;
    while i < rows.len()
        invariant
            i <= rows.len(),
            rv == rows@.map_values(|t: (&'static str, &'static str, u32, &'static str)| (t.0@, t.1@, t.2, t.3@)),
            rv == chart_rows(),
            log@ == log_lc@,
            hits <= i,
            (board_view(*board, ui_lines@), hits as nat) == chart_applied(b0, log_lc@, i as nat),
        decreases rows.len() - i,
    {
        let row = rows[i];
        assert(rv[i as int] == (row.0@, row.1@, row.2, row.3@));
        if contains_str(&log, row.0) {
            board.add_check(owned(row.3));
            board.push_cause(row.1, row.2);
            hits += 1;
        }
        i += 1;
    }
    if hits > 0 {
        let mut line = chars_of("PANIC LOGS chart : ");
        let d = dec_text_exec(hits as u64);
        line.extend_from_slice(&d);
        append_str(&mut line, " motif(s) du PDF reconnus \u{e2}\u{20ac}\u{201d} voir recommandations d\u{c3}\u{a9}taill\u{c3}\u{a9}es.");
        assert(line@ =~= chart_summary_line(hits as nat));
        let ghost before = strs(ui_lines@);
        ui_lines.push(string_of(&line));
        assert(strs(ui_lines@) =~= before.push(chart_summary_line(hits as nat)));
    }
    let cited = regex_find_first("(?i)\\bi2c[012]\\b", log_lc).is_some();
    match i2c_chart_hint(cited, product_apple_lc, soc_id) {
        Some(h) => board.add_check(h),
        None => {},
    }
}

/// The chart rows only add to the board.
pub broadcast proof fn lemma_chart_applied_grows(a: BoardView, b: BoardView, log_lc: Seq<char>, n: nat)
    requires
        board_grows(a, b),
    ensures
        #[trigger] board_grows(a, chart_applied(b, log_lc, n).0),
    decreases n,
{
    broadcast use group_board_grows;
    if n > 0 && n <= chart_rows().len() {
        lemma_chart_applied_grows(a, b, log_lc, (n - 1) as nat);
        assert(chart_rows()[n - 1].2 > 0);
    }
}

/// The chart step only adds to the board: no cause loses weight, no check
/// goes away, and each cause it brings in weighs more than nothing.
pub broadcast proof fn lemma_chart_grows(a: BoardView, b: BoardView, log_lc: Seq<char>, product: Option<Seq<char>>, soc: Option<Seq<char>>, i2c_cited: bool)
    requires
        board_grows(a, b),
    ensures
        #[trigger] board_grows(a, chart_spec(b, log_lc, product, soc, i2c_cited)),
{
    broadcast use group_board_grows;
    lemma_chart_applied_grows(a, b, log_lc, chart_rows().len());
}

} // verus!
