//! The decisions taken while the USB tools run: which tool to run next, and
//! what their answers mean. The tools themselves run outside this module;
//! each answer comes back as an event.
use crate::text::{append_str, chars_of, contains_any, opt_view, owned, string_of, strs, trim, trim_chars, unicode_lower};
use crate::iphone::{IphoneUsbStatus, UsbStatusView, clamp_text, clamp_usb_detail, irecovery_failure_markers, irecovery_output_looks_failed, looks_like_strict_unplugged, looks_like_trust_or_lockdown, opt_status_view, parse_udids, plain_status, status_from_product, status_from_product_ios, strict_unplugged_markers, trust_markers, udids_in, unplugged, usb_status};
use vstd::prelude::*;

verus! {

/// Where an `ideviceinfo` probe without UDID was started from.
pub enum ProbeContext {
    /// `idevice_id -l` timed out.
    ListTimedOut,
    /// `idevice_id -l` succeeded without any UDID; `tool_dir` is the folder
    /// of the tool when its path is absolute.
    EmptyList { stderr: String, tool_dir: Option<String> },
    /// The first UDID gave no product type.
    KeysMissing { udids: Vec<String> },
}

/// What the probe does next.
pub enum UsbProbeStep {
    /// Run `idevice_id -l`.
    ListDevices,
    /// Read the product type and version with `ideviceinfo`, without UDID.
    ProbeWithoutUdid { after: ProbeContext },
    /// Look for a device in recovery mode; `fallback` is the answer when
    /// there is none.
    TryRecovery { fallback: IphoneUsbStatus },
    /// Read the product type and version of the first UDID.
    ReadKeys { udids: Vec<String> },
    /// Run `idevice_id -l` again, to tell a stale UDID from a device that
    /// waits for trust.
    Relist { udids: Vec<String>, detail: String },
    /// The answer.
    Done { status: IphoneUsbStatus },
}

/// What a tool answered.
pub enum UsbEvent {
    /// `idevice_id -l` timed out.
    ListTimedOut,
    /// `idevice_id` could not be found (`tool_path` as displayed).
    ToolMissing { tool_path: String, windows: bool },
    /// `idevice_id` could not be started.
    ListFailed { error: String },
    /// `idevice_id -l` ran: whether it succeeded, its exit status as
    /// displayed, its two output streams, and the folder of the tool when its
    /// path is absolute.
    Listed { success: bool, exit_status: String, stdout: String, stderr: String, tool_dir: Option<String> },
    /// `ideviceinfo` without UDID: product type, version, and what the tool
    /// printed when they were not found.
    Probed { product: Option<String>, ios: Option<String>, detail: String },
    /// The recovery-mode probe.
    Recovery { status: Option<IphoneUsbStatus> },
    /// The keys read for the first UDID.
    KeysRead { product: Option<String>, ios: Option<String> },
    /// The second `idevice_id -l`: its two output streams when it ran.
    Relisted { listing: Option<(String, String)> },
}

pub enum ContextView {
    ListTimedOut,
    EmptyList(Seq<char>, Option<Seq<char>>),
    KeysMissing(Seq<Seq<char>>),
}

pub enum StepView {
    ListDevices,
    ProbeWithoutUdid(ContextView),
    TryRecovery(UsbStatusView),
    ReadKeys(Seq<Seq<char>>),
    Relist(Seq<Seq<char>>, Seq<char>),
    Done(UsbStatusView),
}

pub enum EventView {
    ListTimedOut,
    ToolMissing(Seq<char>, bool),
    ListFailed(Seq<char>),
    Listed(bool, Seq<char>, Seq<char>, Seq<char>, Option<Seq<char>>),
    Probed(Option<Seq<char>>, Option<Seq<char>>, Seq<char>),
    Recovery(Option<UsbStatusView>),
    KeysRead(Option<Seq<char>>, Option<Seq<char>>),
    Relisted(Option<(Seq<char>, Seq<char>)>),
}

impl View for ProbeContext {
    type V = ContextView;

    open spec fn view(&self) -> ContextView {
        match self {
            ProbeContext::ListTimedOut => ContextView::ListTimedOut,
            ProbeContext::EmptyList { stderr, tool_dir } => ContextView::EmptyList(stderr@, opt_view(*tool_dir)),
            ProbeContext::KeysMissing { udids } => ContextView::KeysMissing(strs(udids@)),
        }
    }
}

impl View for UsbProbeStep {
    type V = StepView;

    open spec fn view(&self) -> StepView {
        match self {
            UsbProbeStep::ListDevices => StepView::ListDevices,
            UsbProbeStep::ProbeWithoutUdid { after } => StepView::ProbeWithoutUdid(after@),
            UsbProbeStep::TryRecovery { fallback } => StepView::TryRecovery(fallback@),
            UsbProbeStep::ReadKeys { udids } => StepView::ReadKeys(strs(udids@)),
            UsbProbeStep::Relist { udids, detail } => StepView::Relist(strs(udids@), detail@),
            UsbProbeStep::Done { status } => StepView::Done(status@),
        }
    }
}

pub open spec fn listing_view(o: Option<(String, String)>) -> Option<(Seq<char>, Seq<char>)> {
    match o {
        Some(p) => Some((p.0@, p.1@)),
        None => None,
    }
}

impl View for UsbEvent {
    type V = EventView;

    open spec fn view(&self) -> EventView {
        match self {
            UsbEvent::ListTimedOut => EventView::ListTimedOut,
            UsbEvent::ToolMissing { tool_path, windows } => EventView::ToolMissing(tool_path@, *windows),
            UsbEvent::ListFailed { error } => EventView::ListFailed(error@),
            UsbEvent::Listed { success, exit_status, stdout, stderr, tool_dir } => EventView::Listed(
                *success,
                exit_status@,
                stdout@,
                stderr@,
                opt_view(*tool_dir),
            ),
            UsbEvent::Probed { product, ios, detail } => EventView::Probed(
                opt_view(*product),
                opt_view(*ios),
                detail@,
            ),
            UsbEvent::Recovery { status } => EventView::Recovery(opt_status_view(*status)),
            UsbEvent::KeysRead { product, ios } => EventView::KeysRead(opt_view(*product), opt_view(*ios)),
            UsbEvent::Relisted { listing } => EventView::Relisted(listing_view(*listing)),
        }
    }
}

pub open spec fn unplugged_view() -> UsbStatusView {
    plain_status("unplugged"@, Seq::empty(), Seq::empty(), None, None, None)
}

pub open spec fn awaiting_trust(udids: Seq<Seq<char>>) -> UsbStatusView {
    plain_status("awaiting_trust"@, Seq::empty(), udids, None, None, None)
}

pub open spec fn error_status(msg: Seq<char>) -> UsbStatusView {
    plain_status("error"@, msg, Seq::empty(), None, None, None)
}

pub open spec fn strict_unplugged(m: Seq<char>) -> bool {
    contains_any(unicode_lower(m), strict_unplugged_markers())
}

pub open spec fn trust_prompt(m: Seq<char>) -> bool {
    contains_any(unicode_lower(m), trust_markers())
}

/// The message when `idevice_id` cannot be found.
pub open spec fn no_tools_message(path: Seq<char>, windows: bool) -> Seq<char> {
    if windows {
        "Impossible de lancer idevice_id (chemin r\u{c3}\u{a9}solu : "@ + path + "). Installe les outils, ou npm run sync:libimobiledevice puis rebuild, ou PANICBASE_IDEVICE_DIR."@
    } else {
        "Impossible de lancer idevice_id ("@ + path + ")."@
    }
}

/// After the first `idevice_id -l` ran.
pub open spec fn after_listing(
    success: bool,
    status: Seq<char>,
    out: Seq<char>,
    err: Seq<char>,
    dir: Option<Seq<char>>,
) -> StepView {
    if !success {
        let st = trim(err);
        if trust_prompt(st) {
            StepView::Done(awaiting_trust(Seq::empty()))
        } else if st.len() == 0 {
            StepView::Done(error_status("idevice_id a \u{c3}\u{a9}chou\u{c3}\u{a9} ("@ + status + ")"@))
        } else {
            StepView::Done(error_status(st))
        }
    } else {
        let udids = udids_in(out + seq!['\n'] + err);
        if udids.len() > 0 {
            StepView::ReadKeys(udids)
        } else if strict_unplugged(err) || (trim(out).len() == 0 && trim(err).len() == 0) {
            StepView::TryRecovery(unplugged_view())
        } else {
            StepView::ProbeWithoutUdid(ContextView::EmptyList(err, dir))
        }
    }
}

/// After `ideviceinfo` was asked without UDID.
pub open spec fn after_probe(
    ctx: ContextView,
    product: Option<Seq<char>>,
    ios: Option<Seq<char>>,
    detail: Seq<char>,
) -> StepView {
    match ctx {
        ContextView::ListTimedOut => {
            if product is Some {
                StepView::Done(status_from_product(Seq::empty(), product, ios))
            } else if strict_unplugged(detail) {
                StepView::TryRecovery(unplugged_view())
            } else if trust_prompt(detail) {
                StepView::Done(awaiting_trust(Seq::empty()))
            } else if trim(detail).len() == 0 {
                StepView::Done(error_status("idevice_id -l : d\u{c3}\u{a9}lai d\u{c3}\u{a9}pass\u{c3}\u{a9} (USB lent, port occup\u{c3}\u{a9} ou mux silencieux). R\u{c3}\u{a9}essaie ou change de c\u{c3}\u{a2}ble/port."@))
            } else {
                StepView::Done(error_status("idevice_id -l : d\u{c3}\u{a9}lai. "@ + clamp_text(detail, 380)))
            }
        },
        ContextView::EmptyList(err, dir) => {
            if product is Some {
                StepView::Done(status_from_product(Seq::empty(), product, ios))
            } else if strict_unplugged(detail + seq![' '] + err) {
                StepView::TryRecovery(unplugged_view())
            } else if trust_prompt(detail) || trust_prompt(err) {
                StepView::Done(awaiting_trust(Seq::empty()))
            } else if trim(detail).len() > 0 || trim(err).len() > 0 {
                StepView::TryRecovery(
                    error_status("idevice_id -l n\u{e2}\u{20ac}\u{2122}a renvoy\u{c3}\u{a9} aucun UDID. "@ + clamp_text(trim(detail) + seq![' '] + trim(err), 400)),
                )
            } else {
                StepView::TryRecovery(
                    plain_status(
                        "unplugged"@,
                        match dir {
                            Some(d) => "idevice_id returned no UDID from "@ + d + ". Check USB connection, iPhone trust prompt, and PANICBASE_IDEVICE_DIR."@,
                            None => "idevice_id ne renvoie aucun UDID. PanicBase utilise un binaire du PATH : installe les outils libimobiledevice ou d\u{c3}\u{a9}finis PANICBASE_IDEVICE_DIR / npm run sync:libimobiledevice puis rebuild."@,
                        },
                        Seq::empty(),
                        None,
                        None,
                        None,
                    ),
                )
            }
        },
        ContextView::KeysMissing(udids) => {
            if product is Some {
                StepView::Done(status_from_product(udids, product, ios))
            } else if strict_unplugged(detail) {
                StepView::TryRecovery(unplugged_view())
            } else {
                StepView::Relist(udids, detail)
            }
        },
    }
}

/// After `idevice_id -l` ran a second time.
pub open spec fn after_relist(
    udids: Seq<Seq<char>>,
    detail: Seq<char>,
    listing: Option<(Seq<char>, Seq<char>)>,
) -> StepView {
    match listing {
        None => StepView::Done(awaiting_trust(udids)),
        Some(l) => {
            if udids_in(l.0 + seq!['\n'] + l.1).len() == 0 {
                StepView::TryRecovery(unplugged_view())
            } else if strict_unplugged(detail + seq![' '] + trim(l.1)) {
                StepView::TryRecovery(unplugged_view())
            } else {
                StepView::Done(awaiting_trust(udids))
            }
        },
    }
}

/// The next step once `event` answered `step`. An event that does not
/// answer what the step asked for leaves the step as it is.
pub open spec fn next_step(step: StepView, event: EventView) -> StepView {
    match step {
        StepView::ListDevices => match event {
            EventView::ListTimedOut => StepView::ProbeWithoutUdid(ContextView::ListTimedOut),
            EventView::ToolMissing(path, windows) => StepView::Done(
                plain_status("no_tools"@, no_tools_message(path, windows), Seq::empty(), None, None, None),
            ),
            EventView::ListFailed(e) => StepView::Done(error_status("Impossible de lancer idevice_id : "@ + e)),
            EventView::Listed(success, status, out, err, dir) => after_listing(success, status, out, err, dir),
            _ => step,
        },
        StepView::ProbeWithoutUdid(ctx) => match event {
            EventView::Probed(product, ios, detail) => after_probe(ctx, product, ios, detail),
            _ => step,
        },
        StepView::TryRecovery(fallback) => match event {
            EventView::Recovery(found) => StepView::Done(
                match found {
                    Some(st) => st,
                    None => fallback,
                },
            ),
            _ => step,
        },
        StepView::ReadKeys(udids) => match event {
            EventView::KeysRead(product, ios) => if product is Some {
                StepView::Done(status_from_product(udids, product, ios))
            } else {
                StepView::ProbeWithoutUdid(ContextView::KeysMissing(udids))
            },
            _ => step,
        },
        StepView::Relist(udids, detail) => match event {
            EventView::Relisted(listing) => after_relist(udids, detail, listing),
            _ => step,
        },
        StepView::Done(_) => step,
    }
}

fn text_of_parts(a: &str, mid: &[char], b: &str) -> (r: String)
    ensures
        r@ == a@ + mid@ + b@,
{
    let mut v = chars_of(a);
    v.extend_from_slice(mid);
    append_str(&mut v, b);
    string_of(&v)
}

fn joined2(a: &str, sep: char, b: &str) -> (r: Vec<char>)
    ensures
        r@ == a@ + seq![sep] + b@,
{
    let mut v = chars_of(a);
    v.push(sep);
    let w = chars_of(b);
    v.extend_from_slice(&w);
    v
}

fn awaiting_trust_exec(udids: Vec<String>) -> (r: IphoneUsbStatus)
    ensures
        r@ == awaiting_trust(strs(udids@)),
{
    usb_status("awaiting_trust", String::new(), udids, None, None, None)
}

fn error_exec(msg: String) -> (r: IphoneUsbStatus)
    ensures
        r@ == error_status(msg@),
{
    let r = usb_status("error", msg, Vec::new(), None, None, None);
    assert(strs(Seq::<String>::empty()) =~= Seq::<Seq<char>>::empty());
    r
}

fn no_udids() -> (r: Vec<String>)
    ensures
        strs(r@) == Seq::<Seq<char>>::empty(),
{
    let r: Vec<String> = Vec::new();
    assert(strs(r@) =~= Seq::<Seq<char>>::empty());
    r
}

fn after_listing_exec(success: bool, status: String, stdout: String, stderr: String, tool_dir: Option<String>) -> (r: UsbProbeStep)
    ensures
        r@ == after_listing(success, status@, stdout@, stderr@, opt_view(tool_dir)),
{
    if !success {
        let ec = chars_of(stderr.as_str());
        let st = trim_chars(&ec);
        let sts = string_of(&st);
        if looks_like_trust_or_lockdown(sts.as_str()) {
            return UsbProbeStep::Done { status: awaiting_trust_exec(no_udids()) };
        }
        if st.len() == 0 {
            let sc = chars_of(status.as_str());
            let msg = text_of_parts("idevice_id a \u{c3}\u{a9}chou\u{c3}\u{a9} (", &sc, ")");
            return UsbProbeStep::Done { status: error_exec(msg) };
        }
        return UsbProbeStep::Done { status: error_exec(sts) };
    }
    let both = joined2(stdout.as_str(), '\n', stderr.as_str());
    let bs = string_of(&both);
    let udids = parse_udids(bs.as_str());
    if udids.len() > 0 {
        return UsbProbeStep::ReadKeys { udids };
    }
    let oc = chars_of(stdout.as_str());
    let ec = chars_of(stderr.as_str());
    let clean = trim_chars(&oc).len() == 0 && trim_chars(&ec).len() == 0;
    if looks_like_strict_unplugged(stderr.as_str()) || clean {
        return UsbProbeStep::TryRecovery { fallback: unplugged() };
    }
    UsbProbeStep::ProbeWithoutUdid { after: ProbeContext::EmptyList { stderr, tool_dir } }
}

fn after_probe_exec(ctx: ProbeContext, product: Option<String>, ios: Option<String>, detail: String) -> (r: UsbProbeStep)
    ensures
        r@ == after_probe(ctx@, opt_view(product), opt_view(ios), detail@),
{
    match ctx {
        ProbeContext::ListTimedOut => {
            if product.is_some() {
                return UsbProbeStep::Done { status: status_from_product_ios(no_udids(), product, ios) };
            }
            if looks_like_strict_unplugged(detail.as_str()) {
                return UsbProbeStep::TryRecovery { fallback: unplugged() };
            }
            if looks_like_trust_or_lockdown(detail.as_str()) {
                return UsbProbeStep::Done { status: awaiting_trust_exec(no_udids()) };
            }
            let dc = chars_of(detail.as_str());
            if trim_chars(&dc).len() == 0 {
                return UsbProbeStep::Done { status: error_exec(owned("idevice_id -l : d\u{c3}\u{a9}lai d\u{c3}\u{a9}pass\u{c3}\u{a9} (USB lent, port occup\u{c3}\u{a9} ou mux silencieux). R\u{c3}\u{a9}essaie ou change de c\u{c3}\u{a2}ble/port.")) };
            }
            let cl = clamp_usb_detail(detail.as_str(), 380);
            let clc = chars_of(cl.as_str());
            let msg = text_of_parts("idevice_id -l : d\u{c3}\u{a9}lai. ", &clc, "");
            proof {
                reveal_strlit("");
            }
            assert(msg@ == "idevice_id -l : d\u{c3}\u{a9}lai. "@ + clamp_text(detail@, 380));
            UsbProbeStep::Done { status: error_exec(msg) }
        },
        ProbeContext::EmptyList { stderr, tool_dir } => {
            if product.is_some() {
                return UsbProbeStep::Done { status: status_from_product_ios(no_udids(), product, ios) };
            }
            let combined = joined2(detail.as_str(), ' ', stderr.as_str());
            let cs = string_of(&combined);
            if looks_like_strict_unplugged(cs.as_str()) {
                return UsbProbeStep::TryRecovery { fallback: unplugged() };
            }
            if looks_like_trust_or_lockdown(detail.as_str()) || looks_like_trust_or_lockdown(stderr.as_str()) {
                return UsbProbeStep::Done { status: awaiting_trust_exec(no_udids()) };
            }
            let dc = chars_of(detail.as_str());
            let td = trim_chars(&dc);
            let ec = chars_of(stderr.as_str());
            let te = trim_chars(&ec);
            if td.len() > 0 || te.len() > 0 {
                let mut merged = td.clone();
                merged.push(' ');
                merged.extend_from_slice(&te);
                let ms = string_of(&merged);
                let cl = clamp_usb_detail(ms.as_str(), 400);
                let clc = chars_of(cl.as_str());
                let msg = text_of_parts("idevice_id -l n\u{e2}\u{20ac}\u{2122}a renvoy\u{c3}\u{a9} aucun UDID. ", &clc, "");
                proof {
                    reveal_strlit("");
                }
                assert(merged@ == trim(detail@) + seq![' '] + trim(stderr@));
                return UsbProbeStep::TryRecovery { fallback: error_exec(msg) };
            }
            let text = match tool_dir {
                Some(d) => {
                    let dch = chars_of(d.as_str());
                    text_of_parts("idevice_id returned no UDID from ", &dch, ". Check USB connection, iPhone trust prompt, and PANICBASE_IDEVICE_DIR.")
                },
                None => owned("idevice_id ne renvoie aucun UDID. PanicBase utilise un binaire du PATH : installe les outils libimobiledevice ou d\u{c3}\u{a9}finis PANICBASE_IDEVICE_DIR / npm run sync:libimobiledevice puis rebuild."),
            };
            let st = usb_status("unplugged", text, no_udids(), None, None, None);
            UsbProbeStep::TryRecovery { fallback: st }
        },
        ProbeContext::KeysMissing { udids } => {
            if product.is_some() {
                return UsbProbeStep::Done { status: status_from_product_ios(udids, product, ios) };
            }
            if looks_like_strict_unplugged(detail.as_str()) {
                return UsbProbeStep::TryRecovery { fallback: unplugged() };
            }
            UsbProbeStep::Relist { udids, detail }
        },
    }
}

fn after_relist_exec(udids: Vec<String>, detail: String, listing: Option<(String, String)>) -> (r: UsbProbeStep)
    ensures
        r@ == after_relist(strs(udids@), detail@, listing_view(listing)),
{
    match listing {
        None => UsbProbeStep::Done { status: awaiting_trust_exec(udids) },
        Some((o2, e2)) => {
            let both = joined2(o2.as_str(), '\n', e2.as_str());
            let bs = string_of(&both);
            let u2 = parse_udids(bs.as_str());
            assert(bs@ == o2@ + seq!['\n'] + e2@);
            assert(strs(u2@).len() == u2@.len());
            if u2.len() == 0 {
                return UsbProbeStep::TryRecovery { fallback: unplugged() };
            }
            let ec = chars_of(e2.as_str());
            let et = trim_chars(&ec);
            let mut tail = chars_of(detail.as_str());
            tail.push(' ');
            tail.extend_from_slice(&et);
            assert(tail@ =~= detail@ + seq![' '] + trim(e2@));
            let ts = string_of(&tail);
            if looks_like_strict_unplugged(ts.as_str()) {
                return UsbProbeStep::TryRecovery { fallback: unplugged() };
            }
            UsbProbeStep::Done { status: awaiting_trust_exec(udids) }
        },
    }
}

/// The next step of the USB probe once a tool has answered.
pub fn usb_probe_next(step: UsbProbeStep, event: UsbEvent) -> (r: UsbProbeStep)
    ensures
        r@ == next_step(step@, event@),
{
    match step {
        UsbProbeStep::ListDevices => match event {
            UsbEvent::ListTimedOut => UsbProbeStep::ProbeWithoutUdid { after: ProbeContext::ListTimedOut },
            UsbEvent::ToolMissing { tool_path, windows } => {
                let pc = chars_of(tool_path.as_str());
                let msg = if windows {
                    text_of_parts("Impossible de lancer idevice_id (chemin r\u{c3}\u{a9}solu : ", &pc, "). Installe les outils, ou npm run sync:libimobiledevice puis rebuild, ou PANICBASE_IDEVICE_DIR.")
                } else {
                    text_of_parts("Impossible de lancer idevice_id (", &pc, ").")
                };
                UsbProbeStep::Done { status: usb_status("no_tools", msg, no_udids(), None, None, None) }
            },
            UsbEvent::ListFailed { error } => {
                let ec = chars_of(error.as_str());
                let msg = text_of_parts("Impossible de lancer idevice_id : ", &ec, "");
                proof {
                    reveal_strlit("");
                }
                UsbProbeStep::Done { status: error_exec(msg) }
            },
            UsbEvent::Listed { success, exit_status, stdout, stderr, tool_dir } => after_listing_exec(
                success,
                exit_status,
                stdout,
                stderr,
                tool_dir,
            ),
            other => {
                assert(next_step(StepView::ListDevices, other@) == StepView::ListDevices);
                UsbProbeStep::ListDevices
            },
        },
        UsbProbeStep::ProbeWithoutUdid { after } => match event {
            UsbEvent::Probed { product, ios, detail } => after_probe_exec(after, product, ios, detail),
            _ => UsbProbeStep::ProbeWithoutUdid { after },
        },
        UsbProbeStep::TryRecovery { fallback } => match event {
            UsbEvent::Recovery { status } => match status {
                Some(st) => UsbProbeStep::Done { status: st },
                None => UsbProbeStep::Done { status: fallback },
            },
            _ => UsbProbeStep::TryRecovery { fallback },
        },
        UsbProbeStep::ReadKeys { udids } => match event {
            UsbEvent::KeysRead { product, ios } => {
                if product.is_some() {
                    UsbProbeStep::Done { status: status_from_product_ios(udids, product, ios) }
                } else {
                    UsbProbeStep::ProbeWithoutUdid { after: ProbeContext::KeysMissing { udids } }
                }
            },
            _ => UsbProbeStep::ReadKeys { udids },
        },
        UsbProbeStep::Relist { udids, detail } => match event {
            UsbEvent::Relisted { listing } => after_relist_exec(udids, detail, listing),
            _ => UsbProbeStep::Relist { udids, detail },
        },
        UsbProbeStep::Done { status } => UsbProbeStep::Done { status },
    }
}


/// The event is the answer to what the step asked for.
pub open spec fn answers(step: StepView, event: EventView) -> bool {
    match step {
        StepView::ListDevices => event is ListTimedOut || event is ToolMissing || event is ListFailed
            || event is Listed,
        StepView::ProbeWithoutUdid(_) => event is Probed,
        StepView::TryRecovery(_) => event is Recovery,
        StepView::ReadKeys(_) => event is KeysRead,
        StepView::Relist(_, _) => event is Relisted,
        StepView::Done(_) => false,
    }
}

/// How many more answers the probe may need at most.
pub open spec fn probe_measure(step: StepView) -> nat {
    match step {
        StepView::ListDevices => 5,
        StepView::ReadKeys(_) => 4,
        StepView::ProbeWithoutUdid(_) => 3,
        StepView::Relist(_, _) => 2,
        StepView::TryRecovery(_) => 1,
        StepView::Done(_) => 0,
    }
}

/// The USB probe ends: every answer brings it closer to its result, so it
/// needs at most five answers, and an event that answers nothing changes
/// nothing.
pub proof fn law_probe_progresses(step: StepView, event: EventView)
    ensures
        answers(step, event) ==> probe_measure(next_step(step, event)) < probe_measure(step),
        !answers(step, event) ==> next_step(step, event) == step,
        probe_measure(StepView::ListDevices) == 5,
{
}

// ---------------------------------------------------------------------------
// Leaving recovery mode with `irecovery`
// ---------------------------------------------------------------------------
/// The commands sent one after the other with `irecovery -c`.
pub open spec fn exit_chain() -> Seq<Seq<char>> {
    seq!["setenv auto-boot true"@, "saveenv"@, "reboot"@]
}

/// The command of the chain at `index` (`index < 3`).
pub fn exit_chain_command(index: usize) -> (r: &'static str)
    requires
        index < 3,
    ensures
        r@ == exit_chain()[index as int],
{
    if index == 0 {
        "setenv auto-boot true"
    } else if index == 1 {
        "saveenv"
    } else {
        "reboot"
    }
}

/// What leaving recovery mode does next.
pub enum RecoveryExitStep {
    /// Send the command of the chain at `index` with `irecovery -c`.
    RunCommand { index: usize },
    /// Run `irecovery -n`; `last_error` is what went wrong with the chain.
    RunReboot { last_error: String },
    /// The outcome.
    Finished { outcome: Result<String, String> },
}

/// What `irecovery` answered.
pub enum RecoveryExitEvent {
    /// It ran: its exit status (and that status as displayed) and its streams.
    Ran { success: bool, exit_status: String, stdout: String, stderr: String },
    /// It could not be started.
    StartFailed { error: String },
}

pub enum ExitStepView {
    RunCommand(nat),
    RunReboot(Seq<char>),
    Finished(Result<Seq<char>, Seq<char>>),
}

pub enum ExitEventView {
    Ran(bool, Seq<char>, Seq<char>, Seq<char>),
    StartFailed(Seq<char>),
}

pub open spec fn text_result_view(r: Result<String, String>) -> Result<Seq<char>, Seq<char>> {
    match r {
        Ok(s) => Ok(s@),
        Err(e) => Err(e@),
    }
}

impl View for RecoveryExitStep {
    type V = ExitStepView;

    open spec fn view(&self) -> ExitStepView {
        match self {
            RecoveryExitStep::RunCommand { index } => ExitStepView::RunCommand(*index as nat),
            RecoveryExitStep::RunReboot { last_error } => ExitStepView::RunReboot(last_error@),
            RecoveryExitStep::Finished { outcome } => ExitStepView::Finished(text_result_view(*outcome)),
        }
    }
}

impl View for RecoveryExitEvent {
    type V = ExitEventView;

    open spec fn view(&self) -> ExitEventView {
        match self {
            RecoveryExitEvent::Ran { success, exit_status, stdout, stderr } => ExitEventView::Ran(
                *success,
                exit_status@,
                stdout@,
                stderr@,
            ),
            RecoveryExitEvent::StartFailed { error } => ExitEventView::StartFailed(error@),
        }
    }
}

/// The first step: without the tool there is nothing to do.
pub open spec fn exit_start(tool_found: bool) -> ExitStepView {
    if tool_found {
        ExitStepView::RunCommand(0)
    } else {
        ExitStepView::Finished(Err("irecovery introuvable (m\u{c3}\u{aa}me dossier que idevice_id)."@))
    }
}

pub fn recovery_exit_start(tool_found: bool) -> (r: RecoveryExitStep)
    ensures
        r@ == exit_start(tool_found),
{
    if tool_found {
        RecoveryExitStep::RunCommand { index: 0 }
    } else {
        RecoveryExitStep::Finished { outcome: Err(owned("irecovery introuvable (m\u{c3}\u{aa}me dossier que idevice_id).")) }
    }
}

/// Both output streams of a run, trimmed.
pub open spec fn merged_output(out: Seq<char>, err: Seq<char>) -> Seq<char> {
    trim(out + seq!['\n'] + err)
}

pub open spec fn run_failed(m: Seq<char>) -> bool {
    contains_any(unicode_lower(m), irecovery_failure_markers())
}

/// The error that ends the attempt: the last one seen, or a general message.
pub open spec fn final_exit_error(last: Seq<char>) -> Seq<char> {
    if last.len() == 0 {
        "Impossible de quitter le mode recovery (irecovery). R\u{c3}\u{a9}essaie, change de port USB ou red\u{c3}\u{a9}marre l\u{e2}\u{20ac}\u{2122}iPhone \u{c3}\u{a0} la main."@
    } else {
        last
    }
}

/// The next step once `irecovery` answered.
pub open spec fn exit_next(step: ExitStepView, event: ExitEventView) -> ExitStepView {
    match step {
        ExitStepView::RunCommand(i) => {
            if i >= 3 {
                step
            } else {
                match event {
                    ExitEventView::Ran(success, status, out, err) => {
                        let m = merged_output(out, err);
                        if !success || run_failed(m) {
                            ExitStepView::RunReboot(
                                if m.len() == 0 {
                                    "irecovery -c "@ + exit_chain()[i as int] + " : code "@ + status
                                } else {
                                    clamp_text(m, 400)
                                },
                            )
                        } else if i + 1 < 3 {
                            ExitStepView::RunCommand(i + 1)
                        } else {
                            ExitStepView::Finished(Ok("setenv auto-boot true; saveenv; reboot"@))
                        }
                    },
                    ExitEventView::StartFailed(e) => ExitStepView::RunReboot(e),
                }
            }
        },
        ExitStepView::RunReboot(last) => match event {
            ExitEventView::Ran(success, status, out, err) => {
                let m = merged_output(out, err);
                if success && !run_failed(m) {
                    ExitStepView::Finished(Ok("irecovery -n"@))
                } else if m.len() > 0 {
                    ExitStepView::Finished(Err(final_exit_error(clamp_text(m, 400))))
                } else {
                    ExitStepView::Finished(Err(final_exit_error(last)))
                }
            },
            ExitEventView::StartFailed(e) => ExitStepView::Finished(Err(final_exit_error(e))),
        },
        ExitStepView::Finished(_) => step,
    }
}

fn merged_output_exec(out: &str, err: &str) -> (r: String)
    ensures
        r@ == merged_output(out@, err@),
{
    let both = joined2(out, '\n', err);
    let t = trim_chars(&both);
    string_of(&t)
}

fn final_exit_error_exec(last: String) -> (r: String)
    ensures
        r@ == final_exit_error(last@),
{
    if last.as_str().is_empty() {
        owned("Impossible de quitter le mode recovery (irecovery). R\u{c3}\u{a9}essaie, change de port USB ou red\u{c3}\u{a9}marre l\u{e2}\u{20ac}\u{2122}iPhone \u{c3}\u{a0} la main.")
    } else {
        last
    }
}

/// The next step of leaving recovery mode once `irecovery` answered.
pub fn recovery_exit_next(step: RecoveryExitStep, event: RecoveryExitEvent) -> (r: RecoveryExitStep)
    ensures
        r@ == exit_next(step@, event@),
{
    match step {
        RecoveryExitStep::RunCommand { index } => {
            if index >= 3 {
                return RecoveryExitStep::RunCommand { index };
            }
            match event {
                RecoveryExitEvent::Ran { success, exit_status, stdout, stderr } => {
                    let m = merged_output_exec(stdout.as_str(), stderr.as_str());
                    if !success || irecovery_output_looks_failed(m.as_str()) {
                        let last = if m.as_str().is_empty() {
                            let mut t = chars_of("irecovery -c ");
                            append_str(&mut t, exit_chain_command(index));
                            append_str(&mut t, " : code ");
                            append_str(&mut t, exit_status.as_str());
                            string_of(&t)
                        } else {
                            clamp_usb_detail(m.as_str(), 400)
                        };
                        RecoveryExitStep::RunReboot { last_error: last }
                    } else if index + 1 < 3 {
                        RecoveryExitStep::RunCommand { index: index + 1 }
                    } else {
                        RecoveryExitStep::Finished { outcome: Ok(owned("setenv auto-boot true; saveenv; reboot")) }
                    }
                },
                RecoveryExitEvent::StartFailed { error } => RecoveryExitStep::RunReboot { last_error: error },
            }
        },
        RecoveryExitStep::RunReboot { last_error } => match event {
            RecoveryExitEvent::Ran { success, exit_status, stdout, stderr } => {
                let m = merged_output_exec(stdout.as_str(), stderr.as_str());
                if success && !irecovery_output_looks_failed(m.as_str()) {
                    RecoveryExitStep::Finished { outcome: Ok(owned("irecovery -n")) }
                } else if !m.as_str().is_empty() {
                    let c = clamp_usb_detail(m.as_str(), 400);
                    RecoveryExitStep::Finished { outcome: Err(final_exit_error_exec(c)) }
                } else {
                    RecoveryExitStep::Finished { outcome: Err(final_exit_error_exec(last_error)) }
                }
            },
            RecoveryExitEvent::StartFailed { error } => RecoveryExitStep::Finished {
                outcome: Err(final_exit_error_exec(error)),
            },
        },
        RecoveryExitStep::Finished { outcome } => RecoveryExitStep::Finished { outcome },
    }
}

/// Leaving recovery mode takes at most five answers of `irecovery`: each
/// answer moves the attempt forward, down a measure that starts at 5.
pub open spec fn exit_measure(step: ExitStepView) -> nat {
    match step {
        ExitStepView::RunCommand(i) => if i < 3 {
            (4 - i) as nat
        } else {
            0
        },
        ExitStepView::RunReboot(_) => 1,
        ExitStepView::Finished(_) => 0,
    }
}

/// Each answer to a pending step lowers the measure, and a finished attempt
/// stays finished.
pub proof fn law_recovery_exit_progresses(step: ExitStepView, event: ExitEventView)
    requires
        step matches ExitStepView::RunCommand(i) ==> i < 3,
    ensures
        step is Finished ==> exit_next(step, event) == step,
        !(step is Finished) ==> exit_measure(exit_next(step, event)) < exit_measure(step),
        exit_measure(exit_start(true)) == 4,
{
}

/// A step names a command of the chain only by an index inside it.
pub open spec fn exit_step_in_chain(step: ExitStepView) -> bool {
    step matches ExitStepView::RunCommand(i) ==> i < 3
}

/// Every step reached from the start names a command of the chain.
pub proof fn law_exit_steps_stay_in_chain(tool_found: bool, step: ExitStepView, event: ExitEventView)
    requires
        exit_step_in_chain(step),
    ensures
        exit_step_in_chain(exit_start(tool_found)),
        exit_step_in_chain(exit_next(step, event)),
{
}

/// The `irecovery` arguments of a step: `-c` and the command of the chain,
/// or `-n`; a finished step runs nothing.
pub open spec fn exit_step_args(step: ExitStepView) -> Option<Seq<Seq<char>>> {
    match step {
        ExitStepView::RunCommand(i) => if i < 3 {
            Some(seq!["-c"@, exit_chain()[i as int]])
        } else {
            None
        },
        ExitStepView::RunReboot(_) => Some(seq!["-n"@]),
        ExitStepView::Finished(_) => None,
    }
}

/// What a step asks for: a run of `irecovery` with these arguments, or the
/// outcome.
pub enum RecoveryExitAction {
    Irecovery { args: Vec<String> },
    Done { outcome: Result<String, String> },
}

/// The action of a step (`exit_step_args`). A finished step gives its
/// outcome; an index past the chain, which no step reached from the start
/// holds, counts as a chain that ran to its end.
pub fn recovery_exit_action(step: &RecoveryExitStep) -> (r: RecoveryExitAction)
    ensures
        match r {
            RecoveryExitAction::Irecovery { args } => exit_step_args(step@) == Some(strs(args@)),
            RecoveryExitAction::Done { outcome } => {
                &&& exit_step_args(step@) is None
                &&& step@ matches ExitStepView::Finished(o) ==> text_result_view(outcome) == o
                &&& step@ is RunCommand ==> text_result_view(outcome) == Ok::<Seq<char>, Seq<char>>(
                    "setenv auto-boot true; saveenv; reboot"@,
                )
            },
        },
{
    match step {
        RecoveryExitStep::RunCommand { index } => {
            if *index < 3 {
                let args = vec![owned("-c"), owned(exit_chain_command(*index))];
                assert(strs(args@) =~= seq!["-c"@, exit_chain()[*index as int]]);
                RecoveryExitAction::Irecovery { args }
            } else {
                RecoveryExitAction::Done { outcome: Ok(owned("setenv auto-boot true; saveenv; reboot")) }
            }
        },
        RecoveryExitStep::RunReboot { .. } => {
            let args = vec![owned("-n")];
            assert(strs(args@) =~= seq!["-n"@]);
            RecoveryExitAction::Irecovery { args }
        },
        RecoveryExitStep::Finished { outcome } => {
            let copy = match outcome {
                Ok(t) => Ok(owned(t.as_str())),
                Err(e) => Err(owned(e.as_str())),
            };
            RecoveryExitAction::Done { outcome: copy }
        },
    }
}

} // verus!
