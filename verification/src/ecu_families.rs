//! The built-in catalogue of ECU families, manufacturer by manufacturer.
use vstd::prelude::*;
use crate::ecu_database::{
    add_families, families_view, lemma_add_families_concat, EcuDatabase, EcuFamily, EcuFamilyModel,
    EcuManufacturer, EcuType,
};

verus! {

broadcast use vstd::string::group_string_axioms;

/// The text of each string.
pub open spec fn strs_view(v: Seq<&str>) -> Seq<Seq<char>> {
    v.map_values(|x: &str| x@)
}

/// A family as a row of the built-in table describes it: name,
/// manufacturer, type, description, processor (if known), protocols, year
/// range, diagnostic request and response identifiers (if known) and
/// variants; no baud rate.
pub open spec fn table_family(
    name: Seq<char>,
    manufacturer: EcuManufacturer,
    ecu_type: EcuType,
    description: Seq<char>,
    processor: Option<Seq<char>>,
    protocols: Seq<&str>,
    years: (u16, u16),
    diag_ids: Option<(u32, u32)>,
    variants: Seq<&str>,
) -> EcuFamilyModel {
    EcuFamilyModel {
        name,
        manufacturer,
        ecu_type,
        description,
        processor,
        protocols: strs_view(protocols),
        year_range: Some(years),
        can_baudrate: None,
        diag_can_id_request: match diag_ids {
            Some(d) => Some(d.0),
            None => None,
        },
        diag_can_id_response: match diag_ids {
            Some(d) => Some(d.1),
            None => None,
        },
        variants: if variants.len() == 0 {
            Seq::empty()
        } else {
            strs_view(variants)
        },
    }
}

/// One row of the table as a family.
fn table_row(
    name: &str,
    manufacturer: EcuManufacturer,
    ecu_type: EcuType,
    description: &str,
    processor: Option<&str>,
    protocols: &[&str],
    years: (u16, u16),
    diag_ids: Option<(u32, u32)>,
    variants: &[&str],
) -> (r: EcuFamily)
    ensures
        r@ == table_family(
            name@,
            manufacturer,
            ecu_type,
            description@,
            match processor {
                Some(p) => Some(p@),
                None => None,
            },
            protocols@,
            years,
            diag_ids,
            variants@,
        ),
{
    let mut f = EcuFamily::new(name, manufacturer, ecu_type).with_description(description);
    if let Some(p) = processor {
        f = f.with_processor(p);
    }
    let mut i: usize = 0;
    while i < protocols.len()
        invariant
            i <= protocols@.len(),
            f@.name == name@,
            f@.manufacturer == manufacturer,
            f@.ecu_type == ecu_type,
            f@.description == description@,
            f@.processor == match processor {
                Some(p) => Some(p@),
                None => None,
            },
            f@.protocols == strs_view(protocols@.take(i as int)),
            f@.year_range is None,
            f@.can_baudrate is None,
            f@.diag_can_id_request is None,
            f@.diag_can_id_response is None,
            f@.variants.len() == 0,
        decreases protocols.len() - i,
    {
        f = f.with_protocol(protocols[i]);
        assert(strs_view(protocols@.take(i as int + 1)) =~= strs_view(protocols@.take(i as int)).push(protocols@[i as int]@));
        i += 1;
    }
    assert(protocols@.take(i as int) =~= protocols@);
    f = f.with_years(years.0, years.1);
    if let Some((req, resp)) = diag_ids {
        f = f.with_diag_ids(req, resp);
    }
    assert(strs_view(variants@.take(0)) =~= Seq::<Seq<char>>::empty());
    assert(f@.variants =~= Seq::<Seq<char>>::empty());
    let mut i: usize = 0;
    while i < variants.len()
        invariant
            i <= variants@.len(),
            f@ == (EcuFamilyModel {
                variants: strs_view(variants@.take(i as int)),
                year_range: Some(years),
                ..table_family(
                    name@,
                    manufacturer,
                    ecu_type,
                    description@,
                    match processor {
                        Some(p) => Some(p@),
                        None => None,
                    },
                    protocols@,
                    years,
                    diag_ids,
                    variants@,
                )
            }),
        decreases variants.len() - i,
    {
        f.add_variant(variants[i]);
        assert(strs_view(variants@.take(i as int + 1)) =~= strs_view(variants@.take(i as int)).push(variants@[i as int]@));
        i += 1;
    }
    assert(variants@.take(i as int) =~= variants@);
    assert(variants@.len() == 0 ==> strs_view(variants@) =~= Seq::<Seq<char>>::empty());
    f
}
/// The rows of the Bosch engine families of the older and current generations: EDC15, EDC16, EDC17, ME7.
pub open spec fn bosch_families() -> Seq<EcuFamilyModel> {
    seq![
        table_family(
            "EDC15"@,
            EcuManufacturer::Bosch,
            EcuType::Engine,
            "Electronic Diesel Control 15 - Common rail diesel"@,
            Some("C167"@),
            seq!["KWP2000", "CAN"],
            (1998u16, 2008u16),
            None,
            seq!["EDC15C0", "EDC15C2", "EDC15C3", "EDC15C4", "EDC15C5", "EDC15C6", "EDC15C7", "EDC15M", "EDC15P", "EDC15P+", "EDC15V", "EDC15VM+"],
        ),
        table_family(
            "EDC16"@,
            EcuManufacturer::Bosch,
            EcuType::Engine,
            "Electronic Diesel Control 16 - Common rail diesel"@,
            Some("MPC555/MPC556"@),
            seq!["UDS", "CAN"],
            (2004u16, 2012u16),
            Some((0x7E0u32, 0x7E8u32)),
            seq!["EDC16C0", "EDC16C2", "EDC16C3", "EDC16C4", "EDC16C8", "EDC16C9", "EDC16C31", "EDC16C32", "EDC16C34", "EDC16C35", "EDC16C36", "EDC16C39", "EDC16CP31", "EDC16CP33", "EDC16CP34", "EDC16CP35", "EDC16U1", "EDC16U31", "EDC16U34"],
        ),
        table_family(
            "EDC17"@,
            EcuManufacturer::Bosch,
            EcuType::Engine,
            "Electronic Diesel Control 17 - Latest diesel platform"@,
            Some("TC1766/TC1796/TC1797"@),
            seq!["UDS", "CAN", "CAN-FD"],
            (2008u16, 2026u16),
            Some((0x7E0u32, 0x7E8u32)),
            seq!["EDC17C01", "EDC17C06", "EDC17C08", "EDC17C10", "EDC17C11", "EDC17C41", "EDC17C43", "EDC17C44", "EDC17C45", "EDC17C46", "EDC17C47", "EDC17C49", "EDC17C50", "EDC17C53", "EDC17C54", "EDC17C55", "EDC17C56", "EDC17C57", "EDC17C60", "EDC17C64", "EDC17C69", "EDC17C74", "EDC17CP04", "EDC17CP14", "EDC17CP20", "EDC17CP24", "EDC17CP44", "EDC17CP45", "EDC17CP46", "EDC17CP47", "EDC17CP52", "EDC17CP54", "EDC17U01", "EDC17U05"],
        ),
        table_family(
            "ME7"@,
            EcuManufacturer::Bosch,
            EcuType::Engine,
            "Motronic ME7 - Gasoline engine management"@,
            Some("C167"@),
            seq!["KWP2000", "CAN"],
            (1999u16, 2010u16),
            None,
            seq!["ME7.0", "ME7.1", "ME7.1.1", "ME7.2", "ME7.3", "ME7.3.1", "ME7.3.2", "ME7.4", "ME7.4.1", "ME7.5", "ME7.5.1", "ME7.5.5", "ME7.5.10", "ME7.6", "ME7.6.1", "ME7.6.2", "ME7.7", "ME7.8"],
        ),
    ]
}

/// The rows of the further Bosch families: gasoline direct injection, the MG1/MD1 platforms and chassis control: MED9, MED17, MEVD17, MG1, MD1, ABS9, ESP9.
pub open spec fn bosch_families_continued() -> Seq<EcuFamilyModel> {
    seq![
        table_family(
            "MED9"@,
            EcuManufacturer::Bosch,
            EcuType::Engine,
            "Motronic MED9 - Gasoline Direct Injection"@,
            Some("MPC555/MPC556"@),
            seq!["UDS", "CAN"],
            (2004u16, 2012u16),
            None,
            seq!["MED9.1", "MED9.1.1", "MED9.5", "MED9.5.10"],
        ),
        table_family(
            "MED17"@,
            EcuManufacturer::Bosch,
            EcuType::Engine,
            "Motronic MED17 - Latest gasoline platform"@,
            Some("TC1766/TC1796/TC1797"@),
            seq!["UDS", "CAN", "CAN-FD"],
            (2008u16, 2026u16),
            Some((0x7E0u32, 0x7E8u32)),
            seq!["MED17.1", "MED17.1.1", "MED17.1.6", "MED17.1.10", "MED17.1.21", "MED17.1.27", "MED17.3", "MED17.3.1", "MED17.3.5", "MED17.5", "MED17.5.1", "MED17.5.2", "MED17.5.5", "MED17.5.20", "MED17.5.21", "MED17.7", "MED17.7.1", "MED17.7.2", "MED17.7.3", "MED17.7.5", "MED17.8", "MED17.8.10", "MED17.8.31", "MED17.8.32", "MED17.9", "MED17.9.3", "MED17.9.7", "MED17.9.8"],
        ),
        table_family(
            "MEVD17"@,
            EcuManufacturer::Bosch,
            EcuType::Engine,
            "Motronic MEVD17 - GDI with variable valve timing"@,
            Some("TC1797"@),
            seq!["UDS", "CAN"],
            (2010u16, 2026u16),
            Some((0x7E0u32, 0x7E8u32)),
            seq!["MEVD17.2", "MEVD17.2.4", "MEVD17.2.6", "MEVD17.2.8", "MEVD17.2.9"],
        ),
        table_family(
            "MG1"@,
            EcuManufacturer::Bosch,
            EcuType::Engine,
            "Motronic MG1 - Next generation gasoline platform"@,
            Some("TC2xx"@),
            seq!["UDS", "CAN-FD"],
            (2016u16, 2026u16),
            Some((0x7E0u32, 0x7E8u32)),
            seq!["MG1CS001", "MG1CS002", "MG1CS003", "MG1CS011", "MG1CS024", "MG1CA002", "MG1CA007"],
        ),
        table_family(
            "MD1"@,
            EcuManufacturer::Bosch,
            EcuType::Engine,
            "MD1 - Next generation diesel platform"@,
            Some("TC2xx"@),
            seq!["UDS", "CAN-FD"],
            (2016u16, 2026u16),
            Some((0x7E0u32, 0x7E8u32)),
            seq!["MD1CS001", "MD1CS003", "MD1CS004", "MD1CS006", "MD1CP001", "MD1CP002", "MD1CP004"],
        ),
        table_family(
            "ABS9"@,
            EcuManufacturer::Bosch,
            EcuType::Abs,
            "Bosch ABS 9 - Anti-lock braking system"@,
            None,
            seq!["UDS", "CAN"],
            (2010u16, 2026u16),
            Some((0x7E2u32, 0x7EAu32)),
            seq![],
        ),
        table_family(
            "ESP9"@,
            EcuManufacturer::Bosch,
            EcuType::Esc,
            "Bosch ESP 9 - Electronic Stability Program"@,
            None,
            seq!["UDS", "CAN"],
            (2010u16, 2026u16),
            Some((0x7E2u32, 0x7EAu32)),
            seq![],
        ),
    ]
}

/// The rows of the Continental (and former Siemens VDO) families: SIMOS, SID, EMS, VDO, MK100.
pub open spec fn continental_families() -> Seq<EcuFamilyModel> {
    seq![
        table_family(
            "SIMOS"@,
            EcuManufacturer::Continental,
            EcuType::Engine,
            "Siemens/Continental SIMOS - Gasoline engine management"@,
            Some("TC1766/TC1796/TC1797"@),
            seq!["UDS", "CAN"],
            (2005u16, 2026u16),
            Some((0x7E0u32, 0x7E8u32)),
            seq!["SIMOS3.3", "SIMOS3.4", "SIMOS6.1", "SIMOS6.2", "SIMOS6.3", "SIMOS7.1", "SIMOS7.6", "SIMOS8.1", "SIMOS8.2", "SIMOS8.3", "SIMOS8.4", "SIMOS8.5", "SIMOS10", "SIMOS10.1", "SIMOS10.2", "SIMOS12", "SIMOS12.1", "SIMOS12.2", "SIMOS18", "SIMOS18.1", "SIMOS18.10", "SIMOS18.41", "SIMOS19", "SIMOS19.1", "SIMOS19.3", "SIMOS19.6"],
        ),
        table_family(
            "SID"@,
            EcuManufacturer::Continental,
            EcuType::Engine,
            "Siemens/Continental SID - Diesel engine management"@,
            Some("MPC5xx/TC1xxx"@),
            seq!["UDS", "CAN"],
            (2003u16, 2020u16),
            Some((0x7E0u32, 0x7E8u32)),
            seq!["SID201", "SID202", "SID203", "SID204", "SID206", "SID208", "SID209", "SID301", "SID302", "SID303", "SID305", "SID306", "SID307", "SID309", "SID310", "SID801", "SID802", "SID803", "SID804", "SID805", "SID806", "SID807", "SID901", "SID902", "SID903"],
        ),
        table_family(
            "EMS"@,
            EcuManufacturer::Continental,
            EcuType::Engine,
            "Continental EMS - Engine Management System"@,
            None,
            seq!["UDS", "CAN"],
            (2010u16, 2026u16),
            None,
            seq!["EMS2", "EMS2.1", "EMS2.2", "EMS2.3", "EMS2.4", "EMS3", "EMS3.1", "EMS3.2", "EMS3.3"],
        ),
        table_family(
            "VDO"@,
            EcuManufacturer::Continental,
            EcuType::Cluster,
            "Continental VDO - Instrument Cluster"@,
            None,
            seq!["UDS", "CAN"],
            (2000u16, 2026u16),
            Some((0x7E4u32, 0x7ECu32)),
            seq![],
        ),
        table_family(
            "MK100"@,
            EcuManufacturer::Continental,
            EcuType::Esc,
            "Continental MK100 - ABS/ESC System"@,
            None,
            seq!["UDS", "CAN"],
            (2010u16, 2026u16),
            Some((0x7E2u32, 0x7EAu32)),
            seq![],
        ),
    ]
}

/// The rows of the Denso families: DENSO_TOYOTA, DENSO_HONDA, DENSO_SUBARU, DENSO_MAZDA, GENK.
pub open spec fn denso_families() -> Seq<EcuFamilyModel> {
    seq![
        table_family(
            "DENSO_TOYOTA"@,
            EcuManufacturer::Denso,
            EcuType::Engine,
            "Denso ECUs for Toyota/Lexus vehicles"@,
            None,
            seq!["UDS", "CAN"],
            (2005u16, 2026u16),
            Some((0x7E0u32, 0x7E8u32)),
            seq!["89661-xxxxx", "275xxx"],
        ),
        table_family(
            "DENSO_HONDA"@,
            EcuManufacturer::Denso,
            EcuType::Engine,
            "Denso ECUs for Honda/Acura vehicles"@,
            None,
            seq!["UDS", "CAN"],
            (2005u16, 2026u16),
            Some((0x7E0u32, 0x7E8u32)),
            seq!["37820-xxx-xxx"],
        ),
        table_family(
            "DENSO_SUBARU"@,
            EcuManufacturer::Denso,
            EcuType::Engine,
            "Denso ECUs for Subaru vehicles"@,
            None,
            seq!["UDS", "CAN"],
            (2005u16, 2026u16),
            Some((0x7E0u32, 0x7E8u32)),
            seq!["22611-xxxxx"],
        ),
        table_family(
            "DENSO_MAZDA"@,
            EcuManufacturer::Denso,
            EcuType::Engine,
            "Denso ECUs for Mazda vehicles"@,
            None,
            seq!["UDS", "CAN"],
            (2005u16, 2026u16),
            Some((0x7E0u32, 0x7E8u32)),
            seq![],
        ),
        table_family(
            "GENK"@,
            EcuManufacturer::Denso,
            EcuType::Engine,
            "Denso GENK - Generic Engine Control"@,
            None,
            seq!["UDS", "CAN"],
            (2010u16, 2026u16),
            None,
            seq!["GENK1", "GENK2", "GENK3", "GENK4"],
        ),
    ]
}

/// The rows of the Delphi families: DCM, MT, DELCO.
pub open spec fn delphi_families() -> Seq<EcuFamilyModel> {
    seq![
        table_family(
            "DCM"@,
            EcuManufacturer::Delphi,
            EcuType::Engine,
            "Delphi DCM - Diesel Control Module"@,
            None,
            seq!["UDS", "CAN"],
            (2005u16, 2020u16),
            Some((0x7E0u32, 0x7E8u32)),
            seq!["DCM3.2", "DCM3.4", "DCM3.5", "DCM3.7", "DCM5", "DCM5.1", "DCM5.2", "DCM6.1", "DCM6.2", "DCM6.2C", "DCM7.1", "DCM7.1A"],
        ),
        table_family(
            "MT"@,
            EcuManufacturer::Delphi,
            EcuType::Engine,
            "Delphi Multec - Gasoline engine management"@,
            None,
            seq!["UDS", "CAN"],
            (2000u16, 2015u16),
            None,
            seq!["MT35", "MT35E", "MT38", "MT39", "MT60", "MT80", "MT86"],
        ),
        table_family(
            "DELCO"@,
            EcuManufacturer::Delphi,
            EcuType::Engine,
            "Delphi/Delco - GM Engine Control"@,
            None,
            seq!["UDS", "CAN"],
            (1995u16, 2020u16),
            None,
            seq!["E38", "E40", "E67", "E78", "E83", "E92"],
        ),
    ]
}

/// The rows of the Magneti Marelli families: IAW, MJD, 4CE.
pub open spec fn magneti_marelli_families() -> Seq<EcuFamilyModel> {
    seq![
        table_family(
            "IAW"@,
            EcuManufacturer::MagnetiMarelli,
            EcuType::Engine,
            "Magneti Marelli IAW - Gasoline engine management"@,
            None,
            seq!["KWP2000", "CAN"],
            (1995u16, 2015u16),
            None,
            seq!["IAW4AF", "IAW4CF", "IAW4DF", "IAW4EF", "IAW4FF", "IAW4GF", "IAW4MV", "IAW4SF", "IAW4TV", "IAW4VP", "IAW5AF", "IAW5AM", "IAW5NF", "IAW5NP", "IAW5SF", "IAW5NR", "IAW6LP", "IAW6LPB", "IAW7GF", "IAW7SM", "IAW8F", "IAW8GMF", "IAW8P", "IAW16F", "IAW18F", "IAW18FD", "IAW48P", "IAW49F", "IAW59F"],
        ),
        table_family(
            "MJD"@,
            EcuManufacturer::MagnetiMarelli,
            EcuType::Engine,
            "Magneti Marelli MJD - Multijet Diesel"@,
            None,
            seq!["UDS", "CAN"],
            (2005u16, 2020u16),
            Some((0x7E0u32, 0x7E8u32)),
            seq!["MJD6F3", "MJD6JF", "MJD6JX", "MJD6O1", "MJD6O2", "MJD8F2", "MJD8F3", "MJD8DF", "MJD9DF"],
        ),
        table_family(
            "4CE"@,
            EcuManufacturer::MagnetiMarelli,
            EcuType::Cluster,
            "Magneti Marelli 4CE - Instrument Cluster"@,
            None,
            seq!["CAN"],
            (2005u16, 2020u16),
            None,
            seq![],
        ),
    ]
}

/// The rows of the families of the other manufacturers: Hitachi, Keihin, Hyundai Kefico, ZF, Valeo and Visteon: HITACHI, KEIHIN, KEFICO, ZF_TRANS, ZF_EPS, VALEO, VISTEON.
pub open spec fn other_families() -> Seq<EcuFamilyModel> {
    seq![
        table_family(
            "HITACHI"@,
            EcuManufacturer::Hitachi,
            EcuType::Engine,
            "Hitachi ECUs for Nissan/Infiniti vehicles"@,
            None,
            seq!["UDS", "CAN"],
            (2005u16, 2026u16),
            Some((0x7E0u32, 0x7E8u32)),
            seq!["MEC", "MEC30", "MEC32", "MEC37"],
        ),
        table_family(
            "KEIHIN"@,
            EcuManufacturer::Keihin,
            EcuType::Engine,
            "Keihin ECUs for Honda/Acura vehicles"@,
            None,
            seq!["UDS", "CAN"],
            (2000u16, 2026u16),
            Some((0x7E0u32, 0x7E8u32)),
            seq!["SH7055", "SH7058", "SH7059"],
        ),
        table_family(
            "KEFICO"@,
            EcuManufacturer::HyundaiKefico,
            EcuType::Engine,
            "Hyundai Kefico - Hyundai/Kia engine management"@,
            None,
            seq!["UDS", "CAN"],
            (2005u16, 2026u16),
            Some((0x7E0u32, 0x7E8u32)),
            seq!["CPGDSH", "CPGDSH2", "CPGDSH3", "SIMK41", "SIMK43", "SIMK47"],
        ),
        table_family(
            "ZF_TRANS"@,
            EcuManufacturer::Zf,
            EcuType::Transmission,
            "ZF Transmission Control Units"@,
            None,
            seq!["UDS", "CAN"],
            (2005u16, 2026u16),
            Some((0x7E1u32, 0x7E9u32)),
            seq!["6HP", "8HP", "9HP", "GS19", "GS21", "GS24"],
        ),
        table_family(
            "ZF_EPS"@,
            EcuManufacturer::Zf,
            EcuType::Steering,
            "ZF Electric Power Steering"@,
            None,
            seq!["UDS", "CAN"],
            (2010u16, 2026u16),
            Some((0x7E3u32, 0x7EBu32)),
            seq![],
        ),
        table_family(
            "VALEO"@,
            EcuManufacturer::Valeo,
            EcuType::Other,
            "Valeo Automotive Systems"@,
            None,
            seq!["UDS", "CAN"],
            (2005u16, 2026u16),
            None,
            seq![],
        ),
        table_family(
            "VISTEON"@,
            EcuManufacturer::Visteon,
            EcuType::Cluster,
            "Visteon Instrument Clusters"@,
            None,
            seq!["UDS", "CAN"],
            (2005u16, 2026u16),
            Some((0x7E4u32, 0x7ECu32)),
            seq![],
        ),
    ]
}

/// The whole built-in table, in the order it is loaded.
pub open spec fn builtin_families() -> Seq<EcuFamilyModel> {
    bosch_families() + bosch_families_continued() + continental_families() + denso_families() + delphi_families() + magneti_marelli_families() + other_families()
}

impl EcuDatabase {
    /// Add the Bosch engine families of the older and current generations.
    fn load_bosch_families(&mut self)
        ensures
            families_view(final(self).families@) == add_families(families_view(old(self).families@), bosch_families()),
            final(self).instances == old(self).instances,
            final(self).part_number_map == old(self).part_number_map,
            final(self).a2l_associations == old(self).a2l_associations,
            final(self).version == old(self).version,
            final(self).last_updated == old(self).last_updated,
    {
        let mut rows: Vec<EcuFamily> = Vec::new();
        // EDC15 - Diesel, older generation
        rows.push(table_row(
            "EDC15",
            EcuManufacturer::Bosch,
            EcuType::Engine,
            "Electronic Diesel Control 15 - Common rail diesel",
            Some("C167"),
            &["KWP2000", "CAN"],
            (1998, 2008),
            None,
            &["EDC15C0", "EDC15C2", "EDC15C3", "EDC15C4", "EDC15C5", "EDC15C6", "EDC15C7", "EDC15M", "EDC15P", "EDC15P+", "EDC15V", "EDC15VM+"],
        ));
        // EDC16 - Diesel, mid generation
        rows.push(table_row(
            "EDC16",
            EcuManufacturer::Bosch,
            EcuType::Engine,
            "Electronic Diesel Control 16 - Common rail diesel",
            Some("MPC555/MPC556"),
            &["UDS", "CAN"],
            (2004, 2012),
            Some((0x7E0, 0x7E8)),
            &["EDC16C0", "EDC16C2", "EDC16C3", "EDC16C4", "EDC16C8", "EDC16C9", "EDC16C31", "EDC16C32", "EDC16C34", "EDC16C35", "EDC16C36", "EDC16C39", "EDC16CP31", "EDC16CP33", "EDC16CP34", "EDC16CP35", "EDC16U1", "EDC16U31", "EDC16U34"],
        ));
        // EDC17 - Diesel, current generation
        rows.push(table_row(
            "EDC17",
            EcuManufacturer::Bosch,
            EcuType::Engine,
            "Electronic Diesel Control 17 - Latest diesel platform",
            Some("TC1766/TC1796/TC1797"),
            &["UDS", "CAN", "CAN-FD"],
            (2008, 2026),
            Some((0x7E0, 0x7E8)),
            &["EDC17C01", "EDC17C06", "EDC17C08", "EDC17C10", "EDC17C11", "EDC17C41", "EDC17C43", "EDC17C44", "EDC17C45", "EDC17C46", "EDC17C47", "EDC17C49", "EDC17C50", "EDC17C53", "EDC17C54", "EDC17C55", "EDC17C56", "EDC17C57", "EDC17C60", "EDC17C64", "EDC17C69", "EDC17C74", "EDC17CP04", "EDC17CP14", "EDC17CP20", "EDC17CP24", "EDC17CP44", "EDC17CP45", "EDC17CP46", "EDC17CP47", "EDC17CP52", "EDC17CP54", "EDC17U01", "EDC17U05"],
        ));
        // ME7 - Gasoline, older generation
        rows.push(table_row(
            "ME7",
            EcuManufacturer::Bosch,
            EcuType::Engine,
            "Motronic ME7 - Gasoline engine management",
            Some("C167"),
            &["KWP2000", "CAN"],
            (1999, 2010),
            None,
            &["ME7.0", "ME7.1", "ME7.1.1", "ME7.2", "ME7.3", "ME7.3.1", "ME7.3.2", "ME7.4", "ME7.4.1", "ME7.5", "ME7.5.1", "ME7.5.5", "ME7.5.10", "ME7.6", "ME7.6.1", "ME7.6.2", "ME7.7", "ME7.8"],
        ));
        assert(families_view(rows@)[0].protocols =~= bosch_families()[0].protocols);
        assert(families_view(rows@)[0].variants =~= bosch_families()[0].variants);
        assert(families_view(rows@)[0] == bosch_families()[0]);
        assert(families_view(rows@)[1].protocols =~= bosch_families()[1].protocols);
        assert(families_view(rows@)[1].variants =~= bosch_families()[1].variants);
        assert(families_view(rows@)[1] == bosch_families()[1]);
        assert(families_view(rows@)[2].protocols =~= bosch_families()[2].protocols);
        assert(families_view(rows@)[2].variants =~= bosch_families()[2].variants);
        assert(families_view(rows@)[2] == bosch_families()[2]);
        assert(families_view(rows@)[3].protocols =~= bosch_families()[3].protocols);
        assert(families_view(rows@)[3].variants =~= bosch_families()[3].variants);
        assert(families_view(rows@)[3] == bosch_families()[3]);
        assert(families_view(rows@) =~= bosch_families());
        self.add_family_rows(rows);
    }

    /// Add the further Bosch families: gasoline direct injection, the MG1/MD1 platforms and chassis control.
    fn load_bosch_families_continued(&mut self)
        ensures
            families_view(final(self).families@) == add_families(families_view(old(self).families@), bosch_families_continued()),
            final(self).instances == old(self).instances,
            final(self).part_number_map == old(self).part_number_map,
            final(self).a2l_associations == old(self).a2l_associations,
            final(self).version == old(self).version,
            final(self).last_updated == old(self).last_updated,
    {
        let mut rows: Vec<EcuFamily> = Vec::new();
        // MED9 - Gasoline Direct Injection
        rows.push(table_row(
            "MED9",
            EcuManufacturer::Bosch,
            EcuType::Engine,
            "Motronic MED9 - Gasoline Direct Injection",
            Some("MPC555/MPC556"),
            &["UDS", "CAN"],
            (2004, 2012),
            None,
            &["MED9.1", "MED9.1.1", "MED9.5", "MED9.5.10"],
        ));
        // MED17 - Gasoline, current generation
        rows.push(table_row(
            "MED17",
            EcuManufacturer::Bosch,
            EcuType::Engine,
            "Motronic MED17 - Latest gasoline platform",
            Some("TC1766/TC1796/TC1797"),
            &["UDS", "CAN", "CAN-FD"],
            (2008, 2026),
            Some((0x7E0, 0x7E8)),
            &["MED17.1", "MED17.1.1", "MED17.1.6", "MED17.1.10", "MED17.1.21", "MED17.1.27", "MED17.3", "MED17.3.1", "MED17.3.5", "MED17.5", "MED17.5.1", "MED17.5.2", "MED17.5.5", "MED17.5.20", "MED17.5.21", "MED17.7", "MED17.7.1", "MED17.7.2", "MED17.7.3", "MED17.7.5", "MED17.8", "MED17.8.10", "MED17.8.31", "MED17.8.32", "MED17.9", "MED17.9.3", "MED17.9.7", "MED17.9.8"],
        ));
        // MEVD17 - Gasoline Direct Injection with Valvetronic
        rows.push(table_row(
            "MEVD17",
            EcuManufacturer::Bosch,
            EcuType::Engine,
            "Motronic MEVD17 - GDI with variable valve timing",
            Some("TC1797"),
            &["UDS", "CAN"],
            (2010, 2026),
            Some((0x7E0, 0x7E8)),
            &["MEVD17.2", "MEVD17.2.4", "MEVD17.2.6", "MEVD17.2.8", "MEVD17.2.9"],
        ));
        // MG1 - Next generation gasoline
        rows.push(table_row(
            "MG1",
            EcuManufacturer::Bosch,
            EcuType::Engine,
            "Motronic MG1 - Next generation gasoline platform",
            Some("TC2xx"),
            &["UDS", "CAN-FD"],
            (2016, 2026),
            Some((0x7E0, 0x7E8)),
            &["MG1CS001", "MG1CS002", "MG1CS003", "MG1CS011", "MG1CS024", "MG1CA002", "MG1CA007"],
        ));
        // MD1 - Next generation diesel
        rows.push(table_row(
            "MD1",
            EcuManufacturer::Bosch,
            EcuType::Engine,
            "MD1 - Next generation diesel platform",
            Some("TC2xx"),
            &["UDS", "CAN-FD"],
            (2016, 2026),
            Some((0x7E0, 0x7E8)),
            &["MD1CS001", "MD1CS003", "MD1CS004", "MD1CS006", "MD1CP001", "MD1CP002", "MD1CP004"],
        ));
        // ABS/ESP
        rows.push(table_row(
            "ABS9",
            EcuManufacturer::Bosch,
            EcuType::Abs,
            "Bosch ABS 9 - Anti-lock braking system",
            None,
            &["UDS", "CAN"],
            (2010, 2026),
            Some((0x7E2, 0x7EA)),
            &[],
        ));
        rows.push(table_row(
            "ESP9",
            EcuManufacturer::Bosch,
            EcuType::Esc,
            "Bosch ESP 9 - Electronic Stability Program",
            None,
            &["UDS", "CAN"],
            (2010, 2026),
            Some((0x7E2, 0x7EA)),
            &[],
        ));
        assert(families_view(rows@)[0].protocols =~= bosch_families_continued()[0].protocols);
        assert(families_view(rows@)[0].variants =~= bosch_families_continued()[0].variants);
        assert(families_view(rows@)[0] == bosch_families_continued()[0]);
        assert(families_view(rows@)[1].protocols =~= bosch_families_continued()[1].protocols);
        assert(families_view(rows@)[1].variants =~= bosch_families_continued()[1].variants);
        assert(families_view(rows@)[1] == bosch_families_continued()[1]);
        assert(families_view(rows@)[2].protocols =~= bosch_families_continued()[2].protocols);
        assert(families_view(rows@)[2].variants =~= bosch_families_continued()[2].variants);
        assert(families_view(rows@)[2] == bosch_families_continued()[2]);
        assert(families_view(rows@)[3].protocols =~= bosch_families_continued()[3].protocols);
        assert(families_view(rows@)[3].variants =~= bosch_families_continued()[3].variants);
        assert(families_view(rows@)[3] == bosch_families_continued()[3]);
        assert(families_view(rows@)[4].protocols =~= bosch_families_continued()[4].protocols);
        assert(families_view(rows@)[4].variants =~= bosch_families_continued()[4].variants);
        assert(families_view(rows@)[4] == bosch_families_continued()[4]);
        assert(families_view(rows@)[5].protocols =~= bosch_families_continued()[5].protocols);
        assert(families_view(rows@)[5].variants =~= bosch_families_continued()[5].variants);
        assert(families_view(rows@)[5] == bosch_families_continued()[5]);
        assert(families_view(rows@)[6].protocols =~= bosch_families_continued()[6].protocols);
        assert(families_view(rows@)[6].variants =~= bosch_families_continued()[6].variants);
        assert(families_view(rows@)[6] == bosch_families_continued()[6]);
        assert(families_view(rows@) =~= bosch_families_continued());
        self.add_family_rows(rows);
    }

    /// Add the Continental (and former Siemens VDO) families.
    fn load_continental_families(&mut self)
        ensures
            families_view(final(self).families@) == add_families(families_view(old(self).families@), continental_families()),
            final(self).instances == old(self).instances,
            final(self).part_number_map == old(self).part_number_map,
            final(self).a2l_associations == old(self).a2l_associations,
            final(self).version == old(self).version,
            final(self).last_updated == old(self).last_updated,
    {
        let mut rows: Vec<EcuFamily> = Vec::new();
        // SIMOS - Gasoline
        rows.push(table_row(
            "SIMOS",
            EcuManufacturer::Continental,
            EcuType::Engine,
            "Siemens/Continental SIMOS - Gasoline engine management",
            Some("TC1766/TC1796/TC1797"),
            &["UDS", "CAN"],
            (2005, 2026),
            Some((0x7E0, 0x7E8)),
            &["SIMOS3.3", "SIMOS3.4", "SIMOS6.1", "SIMOS6.2", "SIMOS6.3", "SIMOS7.1", "SIMOS7.6", "SIMOS8.1", "SIMOS8.2", "SIMOS8.3", "SIMOS8.4", "SIMOS8.5", "SIMOS10", "SIMOS10.1", "SIMOS10.2", "SIMOS12", "SIMOS12.1", "SIMOS12.2", "SIMOS18", "SIMOS18.1", "SIMOS18.10", "SIMOS18.41", "SIMOS19", "SIMOS19.1", "SIMOS19.3", "SIMOS19.6"],
        ));
        // SID - Diesel
        rows.push(table_row(
            "SID",
            EcuManufacturer::Continental,
            EcuType::Engine,
            "Siemens/Continental SID - Diesel engine management",
            Some("MPC5xx/TC1xxx"),
            &["UDS", "CAN"],
            (2003, 2020),
            Some((0x7E0, 0x7E8)),
            &["SID201", "SID202", "SID203", "SID204", "SID206", "SID208", "SID209", "SID301", "SID302", "SID303", "SID305", "SID306", "SID307", "SID309", "SID310", "SID801", "SID802", "SID803", "SID804", "SID805", "SID806", "SID807", "SID901", "SID902", "SID903"],
        ));
        // EMS - Engine Management System
        rows.push(table_row(
            "EMS",
            EcuManufacturer::Continental,
            EcuType::Engine,
            "Continental EMS - Engine Management System",
            None,
            &["UDS", "CAN"],
            (2010, 2026),
            None,
            &["EMS2", "EMS2.1", "EMS2.2", "EMS2.3", "EMS2.4", "EMS3", "EMS3.1", "EMS3.2", "EMS3.3"],
        ));
        // VDO - Instrument Cluster
        rows.push(table_row(
            "VDO",
            EcuManufacturer::Continental,
            EcuType::Cluster,
            "Continental VDO - Instrument Cluster",
            None,
            &["UDS", "CAN"],
            (2000, 2026),
            Some((0x7E4, 0x7EC)),
            &[],
        ));
        // MK100 - ABS/ESC
        rows.push(table_row(
            "MK100",
            EcuManufacturer::Continental,
            EcuType::Esc,
            "Continental MK100 - ABS/ESC System",
            None,
            &["UDS", "CAN"],
            (2010, 2026),
            Some((0x7E2, 0x7EA)),
            &[],
        ));
        assert(families_view(rows@)[0].protocols =~= continental_families()[0].protocols);
        assert(families_view(rows@)[0].variants =~= continental_families()[0].variants);
        assert(families_view(rows@)[0] == continental_families()[0]);
        assert(families_view(rows@)[1].protocols =~= continental_families()[1].protocols);
        assert(families_view(rows@)[1].variants =~= continental_families()[1].variants);
        assert(families_view(rows@)[1] == continental_families()[1]);
        assert(families_view(rows@)[2].protocols =~= continental_families()[2].protocols);
        assert(families_view(rows@)[2].variants =~= continental_families()[2].variants);
        assert(families_view(rows@)[2] == continental_families()[2]);
        assert(families_view(rows@)[3].protocols =~= continental_families()[3].protocols);
        assert(families_view(rows@)[3].variants =~= continental_families()[3].variants);
        assert(families_view(rows@)[3] == continental_families()[3]);
        assert(families_view(rows@)[4].protocols =~= continental_families()[4].protocols);
        assert(families_view(rows@)[4].variants =~= continental_families()[4].variants);
        assert(families_view(rows@)[4] == continental_families()[4]);
        assert(families_view(rows@) =~= continental_families());
        self.add_family_rows(rows);
    }

    /// Add the Denso families.
    fn load_denso_families(&mut self)
        ensures
            families_view(final(self).families@) == add_families(families_view(old(self).families@), denso_families()),
            final(self).instances == old(self).instances,
            final(self).part_number_map == old(self).part_number_map,
            final(self).a2l_associations == old(self).a2l_associations,
            final(self).version == old(self).version,
            final(self).last_updated == old(self).last_updated,
    {
        let mut rows: Vec<EcuFamily> = Vec::new();
        // Toyota/Lexus ECUs
        rows.push(table_row(
            "DENSO_TOYOTA",
            EcuManufacturer::Denso,
            EcuType::Engine,
            "Denso ECUs for Toyota/Lexus vehicles",
            None,
            &["UDS", "CAN"],
            (2005, 2026),
            Some((0x7E0, 0x7E8)),
            &["89661-xxxxx", "275xxx"],
        ));
        // Honda ECUs
        rows.push(table_row(
            "DENSO_HONDA",
            EcuManufacturer::Denso,
            EcuType::Engine,
            "Denso ECUs for Honda/Acura vehicles",
            None,
            &["UDS", "CAN"],
            (2005, 2026),
            Some((0x7E0, 0x7E8)),
            &["37820-xxx-xxx"],
        ));
        // Subaru ECUs
        rows.push(table_row(
            "DENSO_SUBARU",
            EcuManufacturer::Denso,
            EcuType::Engine,
            "Denso ECUs for Subaru vehicles",
            None,
            &["UDS", "CAN"],
            (2005, 2026),
            Some((0x7E0, 0x7E8)),
            &["22611-xxxxx"],
        ));
        // Mazda ECUs
        rows.push(table_row(
            "DENSO_MAZDA",
            EcuManufacturer::Denso,
            EcuType::Engine,
            "Denso ECUs for Mazda vehicles",
            None,
            &["UDS", "CAN"],
            (2005, 2026),
            Some((0x7E0, 0x7E8)),
            &[],
        ));
        // Generic Denso
        rows.push(table_row(
            "GENK",
            EcuManufacturer::Denso,
            EcuType::Engine,
            "Denso GENK - Generic Engine Control",
            None,
            &["UDS", "CAN"],
            (2010, 2026),
            None,
            &["GENK1", "GENK2", "GENK3", "GENK4"],
        ));
        assert(families_view(rows@)[0].protocols =~= denso_families()[0].protocols);
        assert(families_view(rows@)[0].variants =~= denso_families()[0].variants);
        assert(families_view(rows@)[0] == denso_families()[0]);
        assert(families_view(rows@)[1].protocols =~= denso_families()[1].protocols);
        assert(families_view(rows@)[1].variants =~= denso_families()[1].variants);
        assert(families_view(rows@)[1] == denso_families()[1]);
        assert(families_view(rows@)[2].protocols =~= denso_families()[2].protocols);
        assert(families_view(rows@)[2].variants =~= denso_families()[2].variants);
        assert(families_view(rows@)[2] == denso_families()[2]);
        assert(families_view(rows@)[3].protocols =~= denso_families()[3].protocols);
        assert(families_view(rows@)[3].variants =~= denso_families()[3].variants);
        assert(families_view(rows@)[3] == denso_families()[3]);
        assert(families_view(rows@)[4].protocols =~= denso_families()[4].protocols);
        assert(families_view(rows@)[4].variants =~= denso_families()[4].variants);
        assert(families_view(rows@)[4] == denso_families()[4]);
        assert(families_view(rows@) =~= denso_families());
        self.add_family_rows(rows);
    }

    /// Add the Delphi families.
    fn load_delphi_families(&mut self)
        ensures
            families_view(final(self).families@) == add_families(families_view(old(self).families@), delphi_families()),
            final(self).instances == old(self).instances,
            final(self).part_number_map == old(self).part_number_map,
            final(self).a2l_associations == old(self).a2l_associations,
            final(self).version == old(self).version,
            final(self).last_updated == old(self).last_updated,
    {
        let mut rows: Vec<EcuFamily> = Vec::new();
        // DCM - Diesel Control Module
        rows.push(table_row(
            "DCM",
            EcuManufacturer::Delphi,
            EcuType::Engine,
            "Delphi DCM - Diesel Control Module",
            None,
            &["UDS", "CAN"],
            (2005, 2020),
            Some((0x7E0, 0x7E8)),
            &["DCM3.2", "DCM3.4", "DCM3.5", "DCM3.7", "DCM5", "DCM5.1", "DCM5.2", "DCM6.1", "DCM6.2", "DCM6.2C", "DCM7.1", "DCM7.1A"],
        ));
        // MT - Multec
        rows.push(table_row(
            "MT",
            EcuManufacturer::Delphi,
            EcuType::Engine,
            "Delphi Multec - Gasoline engine management",
            None,
            &["UDS", "CAN"],
            (2000, 2015),
            None,
            &["MT35", "MT35E", "MT38", "MT39", "MT60", "MT80", "MT86"],
        ));
        // Delco - GM ECUs
        rows.push(table_row(
            "DELCO",
            EcuManufacturer::Delphi,
            EcuType::Engine,
            "Delphi/Delco - GM Engine Control",
            None,
            &["UDS", "CAN"],
            (1995, 2020),
            None,
            &["E38", "E40", "E67", "E78", "E83", "E92"],
        ));
        assert(families_view(rows@)[0].protocols =~= delphi_families()[0].protocols);
        assert(families_view(rows@)[0].variants =~= delphi_families()[0].variants);
        assert(families_view(rows@)[0] == delphi_families()[0]);
        assert(families_view(rows@)[1].protocols =~= delphi_families()[1].protocols);
        assert(families_view(rows@)[1].variants =~= delphi_families()[1].variants);
        assert(families_view(rows@)[1] == delphi_families()[1]);
        assert(families_view(rows@)[2].protocols =~= delphi_families()[2].protocols);
        assert(families_view(rows@)[2].variants =~= delphi_families()[2].variants);
        assert(families_view(rows@)[2] == delphi_families()[2]);
        assert(families_view(rows@) =~= delphi_families());
        self.add_family_rows(rows);
    }

    /// Add the Magneti Marelli families.
    fn load_magneti_marelli_families(&mut self)
        ensures
            families_view(final(self).families@) == add_families(families_view(old(self).families@), magneti_marelli_families()),
            final(self).instances == old(self).instances,
            final(self).part_number_map == old(self).part_number_map,
            final(self).a2l_associations == old(self).a2l_associations,
            final(self).version == old(self).version,
            final(self).last_updated == old(self).last_updated,
    {
        let mut rows: Vec<EcuFamily> = Vec::new();
        // IAW - Integrated Automatic Wiring
        rows.push(table_row(
            "IAW",
            EcuManufacturer::MagnetiMarelli,
            EcuType::Engine,
            "Magneti Marelli IAW - Gasoline engine management",
            None,
            &["KWP2000", "CAN"],
            (1995, 2015),
            None,
            &["IAW4AF", "IAW4CF", "IAW4DF", "IAW4EF", "IAW4FF", "IAW4GF", "IAW4MV", "IAW4SF", "IAW4TV", "IAW4VP", "IAW5AF", "IAW5AM", "IAW5NF", "IAW5NP", "IAW5SF", "IAW5NR", "IAW6LP", "IAW6LPB", "IAW7GF", "IAW7SM", "IAW8F", "IAW8GMF", "IAW8P", "IAW16F", "IAW18F", "IAW18FD", "IAW48P", "IAW49F", "IAW59F"],
        ));
        // MJD - Multijet Diesel
        rows.push(table_row(
            "MJD",
            EcuManufacturer::MagnetiMarelli,
            EcuType::Engine,
            "Magneti Marelli MJD - Multijet Diesel",
            None,
            &["UDS", "CAN"],
            (2005, 2020),
            Some((0x7E0, 0x7E8)),
            &["MJD6F3", "MJD6JF", "MJD6JX", "MJD6O1", "MJD6O2", "MJD8F2", "MJD8F3", "MJD8DF", "MJD9DF"],
        ));
        // 4CE - Cluster
        rows.push(table_row(
            "4CE",
            EcuManufacturer::MagnetiMarelli,
            EcuType::Cluster,
            "Magneti Marelli 4CE - Instrument Cluster",
            None,
            &["CAN"],
            (2005, 2020),
            None,
            &[],
        ));
        assert(families_view(rows@)[0].protocols =~= magneti_marelli_families()[0].protocols);
        assert(families_view(rows@)[0].variants =~= magneti_marelli_families()[0].variants);
        assert(families_view(rows@)[0] == magneti_marelli_families()[0]);
        assert(families_view(rows@)[1].protocols =~= magneti_marelli_families()[1].protocols);
        assert(families_view(rows@)[1].variants =~= magneti_marelli_families()[1].variants);
        assert(families_view(rows@)[1] == magneti_marelli_families()[1]);
        assert(families_view(rows@)[2].protocols =~= magneti_marelli_families()[2].protocols);
        assert(families_view(rows@)[2].variants =~= magneti_marelli_families()[2].variants);
        assert(families_view(rows@)[2] == magneti_marelli_families()[2]);
        assert(families_view(rows@) =~= magneti_marelli_families());
        self.add_family_rows(rows);
    }

    /// Add the families of the other manufacturers: Hitachi, Keihin, Hyundai Kefico, ZF, Valeo and Visteon.
    fn load_other_families(&mut self)
        ensures
            families_view(final(self).families@) == add_families(families_view(old(self).families@), other_families()),
            final(self).instances == old(self).instances,
            final(self).part_number_map == old(self).part_number_map,
            final(self).a2l_associations == old(self).a2l_associations,
            final(self).version == old(self).version,
            final(self).last_updated == old(self).last_updated,
    {
        let mut rows: Vec<EcuFamily> = Vec::new();
        // Hitachi - Nissan
        rows.push(table_row(
            "HITACHI",
            EcuManufacturer::Hitachi,
            EcuType::Engine,
            "Hitachi ECUs for Nissan/Infiniti vehicles",
            None,
            &["UDS", "CAN"],
            (2005, 2026),
            Some((0x7E0, 0x7E8)),
            &["MEC", "MEC30", "MEC32", "MEC37"],
        ));
        // Keihin - Honda
        rows.push(table_row(
            "KEIHIN",
            EcuManufacturer::Keihin,
            EcuType::Engine,
            "Keihin ECUs for Honda/Acura vehicles",
            None,
            &["UDS", "CAN"],
            (2000, 2026),
            Some((0x7E0, 0x7E8)),
            &["SH7055", "SH7058", "SH7059"],
        ));
        // Hyundai Kefico
        rows.push(table_row(
            "KEFICO",
            EcuManufacturer::HyundaiKefico,
            EcuType::Engine,
            "Hyundai Kefico - Hyundai/Kia engine management",
            None,
            &["UDS", "CAN"],
            (2005, 2026),
            Some((0x7E0, 0x7E8)),
            &["CPGDSH", "CPGDSH2", "CPGDSH3", "SIMK41", "SIMK43", "SIMK47"],
        ));
        // ZF - Transmission
        rows.push(table_row(
            "ZF_TRANS",
            EcuManufacturer::Zf,
            EcuType::Transmission,
            "ZF Transmission Control Units",
            None,
            &["UDS", "CAN"],
            (2005, 2026),
            Some((0x7E1, 0x7E9)),
            &["6HP", "8HP", "9HP", "GS19", "GS21", "GS24"],
        ));
        // ZF - Steering
        rows.push(table_row(
            "ZF_EPS",
            EcuManufacturer::Zf,
            EcuType::Steering,
            "ZF Electric Power Steering",
            None,
            &["UDS", "CAN"],
            (2010, 2026),
            Some((0x7E3, 0x7EB)),
            &[],
        ));
        // Valeo
        rows.push(table_row(
            "VALEO",
            EcuManufacturer::Valeo,
            EcuType::Other,
            "Valeo Automotive Systems",
            None,
            &["UDS", "CAN"],
            (2005, 2026),
            None,
            &[],
        ));
        // Visteon
        rows.push(table_row(
            "VISTEON",
            EcuManufacturer::Visteon,
            EcuType::Cluster,
            "Visteon Instrument Clusters",
            None,
            &["UDS", "CAN"],
            (2005, 2026),
            Some((0x7E4, 0x7EC)),
            &[],
        ));
        assert(families_view(rows@)[0].protocols =~= other_families()[0].protocols);
        assert(families_view(rows@)[0].variants =~= other_families()[0].variants);
        assert(families_view(rows@)[0] == other_families()[0]);
        assert(families_view(rows@)[1].protocols =~= other_families()[1].protocols);
        assert(families_view(rows@)[1].variants =~= other_families()[1].variants);
        assert(families_view(rows@)[1] == other_families()[1]);
        assert(families_view(rows@)[2].protocols =~= other_families()[2].protocols);
        assert(families_view(rows@)[2].variants =~= other_families()[2].variants);
        assert(families_view(rows@)[2] == other_families()[2]);
        assert(families_view(rows@)[3].protocols =~= other_families()[3].protocols);
        assert(families_view(rows@)[3].variants =~= other_families()[3].variants);
        assert(families_view(rows@)[3] == other_families()[3]);
        assert(families_view(rows@)[4].protocols =~= other_families()[4].protocols);
        assert(families_view(rows@)[4].variants =~= other_families()[4].variants);
        assert(families_view(rows@)[4] == other_families()[4]);
        assert(families_view(rows@)[5].protocols =~= other_families()[5].protocols);
        assert(families_view(rows@)[5].variants =~= other_families()[5].variants);
        assert(families_view(rows@)[5] == other_families()[5]);
        assert(families_view(rows@)[6].protocols =~= other_families()[6].protocols);
        assert(families_view(rows@)[6].variants =~= other_families()[6].variants);
        assert(families_view(rows@)[6] == other_families()[6]);
        assert(families_view(rows@) =~= other_families());
        self.add_family_rows(rows);
    }

    /// The built-in database: an empty one of version 1.0.0, dated
    /// 2026-01-26, with the built-in families added in table order.
    pub fn load_builtin() -> (r: Self)
        ensures
            families_view(r.families@) == add_families(Seq::empty(), builtin_families()),
            r.instances@.len() == 0,
            r.part_number_map@.len() == 0,
            r.a2l_associations@.len() == 0,
            r.version@ == "1.0.0"@,
            r.last_updated@ == "2026-01-26"@,
    {
        let mut db = Self::new();
        assert(families_view(db.families@) =~= Seq::<EcuFamilyModel>::empty());
        db.load_bosch_families();
        db.load_bosch_families_continued();
        proof {
            lemma_add_families_concat(Seq::empty(), bosch_families(), bosch_families_continued());
        }
        db.load_continental_families();
        proof {
            lemma_add_families_concat(Seq::empty(), bosch_families() + bosch_families_continued(), continental_families());
        }
        db.load_denso_families();
        proof {
            lemma_add_families_concat(Seq::empty(), bosch_families() + bosch_families_continued() + continental_families(), denso_families());
        }
        db.load_delphi_families();
        proof {
            lemma_add_families_concat(Seq::empty(), bosch_families() + bosch_families_continued() + continental_families() + denso_families(), delphi_families());
        }
        db.load_magneti_marelli_families();
        proof {
            lemma_add_families_concat(Seq::empty(), bosch_families() + bosch_families_continued() + continental_families() + denso_families() + delphi_families(), magneti_marelli_families());
        }
        db.load_other_families();
        proof {
            lemma_add_families_concat(Seq::empty(), bosch_families() + bosch_families_continued() + continental_families() + denso_families() + delphi_families() + magneti_marelli_families(), other_families());
        }
        db
    }
}

} // verus!
