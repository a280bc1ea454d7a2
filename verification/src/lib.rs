use vstd::prelude::*;

pub mod text;
pub mod panic_parser;
pub mod signature;
pub mod knowledge;
pub mod iphone;
pub mod usb_probe;
pub mod panic_diagnostic;
pub mod repair_wiki;
pub mod gallery_afc;
pub mod contacts_transfer;
pub mod icloud;
pub mod encoding;
pub mod crypto;
pub mod kb_seal;
pub mod icloud_photos;
pub mod workshop;
pub mod ips;
pub mod findings;
pub mod panic_logs_chart;
pub mod cause_rules;
pub mod critical_lines;
pub mod patterns;
pub mod anonymizer;
pub mod focus;
pub mod diagnosis_input;
pub mod panic_pull;

verus! {
} // verus!
