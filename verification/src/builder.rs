//! The build of the resolved model of a device from its description.
use crate::addresses::{
    address_entries, distinct_addresses, get_entity_db, register_addresses_of,
};
use crate::error::{
    msg_interrupt_range, Diagnostic, DiagnosticView, ParseError, ParseErrorView,
};
use crate::interrupts::{
    all_interrupts, duplicate_slots, get_interrupt_table, interrupt_table, interrupts_in_range,
    slots_in_range, table_views,
};
use crate::ir::{Device, DeviceView, Interrupt, InterruptView, PathChunk, PathChunkView};
use crate::ordered::views;
use crate::svd::SvdDevice;
use crate::text::{replace_all, replaced};
use crate::visitor::{visited_device, Visitor};
use crate::wellformed::{lemma_built_device_is_well_formed, well_formed_device};
use linked_hash_map::LinkedHashMap;
use vstd::prelude::*;
use vstd::string::StringExecFns;

verus! {

/// The resolved model of a device.
#[derive(Debug, PartialEq)]
pub struct IR {
    pub device: Device,
    /// The address flattening database: each address at which a register
    /// lies, with the paths of the registers that lie there.
    pub register_addresses: LinkedHashMap<u64, Vec<Vec<PathChunk>>>,
    pub license_text: String,
    pub version: String,
    /// The interrupt table; a slot that no interrupt takes holds nothing.
    pub interrupt_table: Vec<Option<Interrupt>>,
    /// The number of priority bits of the interrupt controller, where the
    /// description says something of the processor.
    pub nvic_prio_bits: Option<u32>,
    /// Whether the vendor configures the system timer, where the description
    /// says something of the processor.
    pub vendor_systick_config: Option<bool>,
    /// Whether a floating-point unit is present, where the description says
    /// something of the processor.
    pub fpu_present: Option<bool>,
    /// Whether a memory protection unit is present, where the description
    /// says something of the processor.
    pub mpu_present: Option<bool>,
}

/// The view of an [`IR`].
pub struct IRView {
    pub device: DeviceView,
    pub register_addresses: Seq<(u64, Seq<Seq<PathChunkView>>)>,
    pub license_text: Seq<char>,
    pub version: Seq<char>,
    pub interrupt_table: Seq<Option<InterruptView>>,
    pub nvic_prio_bits: Option<u32>,
    pub vendor_systick_config: Option<bool>,
    pub fpu_present: Option<bool>,
    pub mpu_present: Option<bool>,
}

impl View for IR {
    type V = IRView;

    open spec fn view(&self) -> IRView {
        IRView {
            device: self.device@,
            register_addresses: address_entries(self.register_addresses),
            license_text: self.license_text@,
            version: self.version@,
            interrupt_table: table_views(self.interrupt_table@),
            nvic_prio_bits: self.nvic_prio_bits,
            vendor_systick_config: self.vendor_systick_config,
            fpu_present: self.fpu_present,
            mpu_present: self.mpu_present,
        }
    }
}

/// A line break written as two characters: a backslash and `n`.
pub open spec fn escaped_break() -> Seq<char> {
    seq!['\\', 'n']
}

/// The license text of a build and the diagnostic of its absence: the text
/// that the caller gives; else that of the description, with its escaped
/// line breaks made real; else the empty text, which is reported.
pub open spec fn license_of(d: SvdDevice, custom: Option<Seq<char>>) -> (
    Seq<char>,
    Seq<DiagnosticView>,
) {
    match custom {
        Some(text) => (text, Seq::empty()),
        None => match d.license_text {
            Some(text) => (replaced(text@, escaped_break(), seq!['\n']), Seq::empty()),
            None => (Seq::empty(), seq![DiagnosticView::MissingLicense]),
        },
    }
}

/// The resolved model of the device `d` with the license text `custom`,
/// where the caller gives one, and the diagnostics of the build: first that
/// of the license, then those of the walk, then those of the interrupt
/// table. The build fails with the first error of the walk; else where the
/// slot of an interrupt cannot index a table; else with the first error of
/// the address flattening database.
pub open spec fn resolved(d: SvdDevice, custom: Option<Seq<char>>) -> Result<
    (IRView, Seq<DiagnosticView>),
    ParseErrorView,
> {
    match visited_device(d) {
        Err(e) => Err(e),
        Ok((device, walk_diagnostics)) => {
            let interrupts = all_interrupts(device.peripheral_mod);
            if !slots_in_range(interrupts) {
                Err(ParseErrorView::Unsupported(msg_interrupt_range()))
            } else {
                match register_addresses_of(d) {
                    Err(e) => Err(e),
                    Ok(register_addresses) => Ok(
                        (
                            IRView {
                                device,
                                register_addresses,
                                license_text: license_of(d, custom).0,
                                version: d.version@,
                                interrupt_table: interrupt_table(interrupts),
                                nvic_prio_bits: match d.cpu {
                                    Some(cpu) => Some(cpu.nvic_priority_bits),
                                    None => None,
                                },
                                vendor_systick_config: match d.cpu {
                                    Some(cpu) => Some(cpu.has_vendor_systick),
                                    None => None,
                                },
                                fpu_present: match d.cpu {
                                    Some(cpu) => Some(cpu.fpu_present),
                                    None => None,
                                },
                                mpu_present: match d.cpu {
                                    Some(cpu) => Some(cpu.mpu_present),
                                    None => None,
                                },
                            },
                            license_of(d, custom).1 + walk_diagnostics + duplicate_slots(
                                interrupts,
                            ),
                        ),
                    ),
                }
            }
        },
    }
}

/// The view of the result of a build.
pub open spec fn build_view(r: Result<IR, ParseError>) -> Result<IRView, ParseErrorView> {
    match r {
        Ok(ir) => Ok(ir@),
        Err(e) => Err(e@),
    }
}

/// The view of an optional license text.
pub open spec fn custom_text(custom: Option<String>) -> Option<Seq<char>> {
    match custom {
        Some(text) => Some(text@),
        None => None,
    }
}

/// Whether `r` is the result of the build of `d` with the license text
/// `custom`.
pub open spec fn is_build_of(r: Result<IR, ParseError>, d: SvdDevice, custom: Option<Seq<char>>) -> bool {
    match resolved(d, custom) {
        Ok((model, _)) => build_view(r) == Ok::<IRView, ParseErrorView>(model),
        Err(e) => build_view(r) == Err::<IRView, ParseErrorView>(e),
    }
}

fn license_text_of(
    svd_device: &SvdDevice,
    custom_license_text: &Option<String>,
    diagnostics: &mut Vec<Diagnostic>,
) -> (r: String)
    ensures
        r@ == license_of(*svd_device, custom_text(*custom_license_text)).0,
        views(final(diagnostics)@) == views(old(diagnostics)@) + license_of(
            *svd_device,
            custom_text(*custom_license_text),
        ).1,
{
    let ghost before = views(diagnostics@);
    proof {
        assert(before + Seq::<DiagnosticView>::empty() =~= before);
    }
    match custom_license_text {
        Some(file_license) => file_license.clone(),
        None => match &svd_device.license_text {
            Some(license_txt) => {
                proof {
                    reveal_strlit("\\n");
                    reveal_strlit("\n");
                    assert("\\n"@ =~= escaped_break());
                    assert("\n"@ =~= seq!['\n']);
                }
                replace_all(license_txt.as_str(), "\\n", "\n")
            },
            None => {
                diagnostics.push(Diagnostic::MissingLicense);
                proof {
                    assert(views(diagnostics@) =~= before + seq![DiagnosticView::MissingLicense]);
                }
                String::new()
            },
        },
    }
}

/// Builds the resolved model of `svd_device`. The license text is
/// `custom_license_text` where the caller gives one. What the build finds
/// wanting without failing is appended to `diagnostics`. A build that fails
/// returns the error and no model. The model of a build that succeeds is
/// well formed, and its address flattening database has one entry for each
/// address.
pub fn svd_device2ir(
    svd_device: &SvdDevice,
    custom_license_text: &Option<String>,
    diagnostics: &mut Vec<Diagnostic>,
) -> (r: Result<IR, ParseError>)
    ensures
        is_build_of(r, *svd_device, custom_text(*custom_license_text)),
        r is Ok ==> views(final(diagnostics)@) == views(old(diagnostics)@) + resolved(
            *svd_device,
            custom_text(*custom_license_text),
        )->Ok_0.1,
        r matches Ok(ir) ==> well_formed_device(ir@.device) && distinct_addresses(
            ir@.register_addresses,
        ),
{
    proof {
        lemma_built_device_is_well_formed(*svd_device);
    }
    let ghost before = views(diagnostics@);
    let mut visitor = Visitor::new();
    match visitor.visit_device(svd_device) {
        Err(e) => {
            return Err(e);
        },
        Ok(()) => {},
    }
    let Visitor { device, diagnostics: mut walk_diagnostics, .. } = visitor;
    let ghost walk_reported = views(walk_diagnostics@);
    proof {
        assert(visited_device(*svd_device) == Ok::<
            (DeviceView, Seq<DiagnosticView>),
            ParseErrorView,
        >((device@, walk_reported)));
    }
    if !interrupts_in_range(&device.peripheral_mod) {
        return Err(
            ParseError::Unsupported(String::from_str("The slot of an interrupt is out of range")),
        );
    }
    let entity_db = match get_entity_db(svd_device) {
        Err(e) => {
            return Err(e);
        },
        Ok(entity_db) => entity_db,
    };
    let license_text = license_text_of(svd_device, custom_license_text, diagnostics);
    let ghost with_license = views(diagnostics@);
    diagnostics.append(&mut walk_diagnostics);
    proof {
        assert(views(diagnostics@) =~= with_license + walk_reported);
    }
    let interrupt_table = get_interrupt_table(&device.peripheral_mod, diagnostics);
    proof {
        let custom = custom_text(*custom_license_text);
        let interrupts = all_interrupts(device@.peripheral_mod);
        assert(views(diagnostics@) =~= before + (license_of(*svd_device, custom).1 + walk_reported
            + duplicate_slots(interrupts)));
    }
    Ok(
        IR {
            device,
            register_addresses: entity_db.register_addresses,
            license_text,
            version: svd_device.version.clone(),
            interrupt_table,
            nvic_prio_bits: match &svd_device.cpu {
                Some(cpu) => Some(cpu.nvic_priority_bits),
                None => None,
            },
            vendor_systick_config: match &svd_device.cpu {
                Some(cpu) => Some(cpu.has_vendor_systick),
                None => None,
            },
            fpu_present: match &svd_device.cpu {
                Some(cpu) => Some(cpu.fpu_present),
                None => None,
            },
            mpu_present: match &svd_device.cpu {
                Some(cpu) => Some(cpu.mpu_present),
                None => None,
            },
        },
    )
}

/// Two builds of the same device with the same license text give the same
/// result: the same model, entry for entry in the same order, or the same
/// error.
pub proof fn lemma_build_is_deterministic(
    d: SvdDevice,
    custom: Option<Seq<char>>,
    first: Result<IR, ParseError>,
    second: Result<IR, ParseError>,
)
    requires
        is_build_of(first, d, custom),
        is_build_of(second, d, custom),
    ensures
        build_view(first) == build_view(second),
{
}

} // verus!
