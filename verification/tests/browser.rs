//! The sourcetable browser: filtering, sorting, selection.

use open_ntrip_client::ieee::Real64;
use open_ntrip_client::sourcetable::{CasRecord, NetRecord, SourceTable, StrRecord};
use open_ntrip_client::ui::sourcetable_browser::{
    cas_cells, cas_matches, cas_rows, click_header, click_row, cmp_ci, empty_hint, footer,
    footer_counts, net_cells, net_matches, net_rows, resolve_selection, row_selected, sort_header,
    str_cells, str_columns, str_matches, str_rows, sync_view, tabs, toolbar, unparsed_rows,
    Pending, SortKey, Tab, ViewState,
};

fn degrees(v: f64) -> Real64 {
    Real64 { bits: v.to_bits() }
}

/// A stream from the fields of its sourcetable line.
fn stream(line: &str) -> StrRecord {
    let f: Vec<&str> = line.split(';').collect();
    let text = |i: usize| f[i].to_string();
    StrRecord {
        mountpoint: text(1),
        identifier: text(2),
        format: text(3),
        carrier: text(5),
        nav_system: text(6),
        network: text(7),
        country: text(8),
        lat: degrees(f[9].parse().unwrap()),
        lon: degrees(f[10].parse().unwrap()),
        nmea_required: f[11] == "1",
        solution: text(12),
        generator: text(13),
        auth: text(15),
        fee: f[16] == "Y",
        bitrate: f[17].parse().unwrap(),
    }
}

/// Bitrates are chosen to break lexicographic sorting (19200 < 2400 as
/// strings), the classic mistake this table must not make.
fn fixture() -> SourceTable {
    SourceTable {
        strs: vec![
            stream("STR;P401_RTCM3;Portland;RTCM 3.2;1004(1),1005(10);2;GPS+GLO;PBO;USA;45.50;-122.60;1;0;TRIMBLE NETR9;none;B;N;2400;"),
            stream("STR;OGD1_RTCM3;Ogden;RTCM 3.3;MSM7;2;GPS+GLO+GAL;CHC;USA;41.20;-111.90;0;0;CHC N72;none;B;N;9600;"),
            stream("STR;BERN0;Bern;RTCM 3.1;1004;2;GPS;IGS;CHE;46.87;7.46;1;1;LEICA GR25;none;B;Y;500;"),
            stream("STR;zzz_low;Anywhere;CMR+;;0;GPS;;DEU;50.00;8.00;0;0;GENERIC;none;N;N;19200;"),
        ],
        casters: vec![CasRecord {
            host: "caster.example.com".to_string(),
            port: 2101,
            identifier: "Example".to_string(),
            operator: "ExampleOp".to_string(),
            nmea: "0".to_string(),
            country: "USA".to_string(),
            lat: degrees(45.0),
            lon: degrees(-122.0),
            misc: "extra".to_string(),
        }],
        networks: vec![NetRecord {
            identifier: "IGSNET".to_string(),
            operator: "IGS".to_string(),
            auth: "B".to_string(),
            fee: "N".to_string(),
            web_net: "http://net".to_string(),
            web_str: "http://str".to_string(),
            web_reg: "reg@example.com".to_string(),
            misc: "extra".to_string(),
        }],
        unparsed: vec!["some stray vendor line".to_string()],
    }
}

fn mounts(strs: &[StrRecord], rows: &[usize]) -> Vec<String> {
    rows.iter().map(|&i| strs[i].mountpoint.clone()).collect()
}

#[test]
fn filter_matches_mount_identifier_format_and_country() {
    let t = fixture();
    // Empty filter: everything, in caster order.
    assert_eq!(str_rows(&t.strs, "", None).len(), 4);
    // Format (and mountpoint) hits.
    assert_eq!(
        mounts(&t.strs, &str_rows(&t.strs, "rtcm", None)),
        ["P401_RTCM3", "OGD1_RTCM3", "BERN0"]
    );
    // Country, case-insensitive.
    assert_eq!(mounts(&t.strs, &str_rows(&t.strs, "che", None)), ["BERN0"]);
    // Identifier, case-insensitive.
    assert_eq!(
        mounts(&t.strs, &str_rows(&t.strs, "OGDEN", None)),
        ["OGD1_RTCM3"]
    );
    assert!(str_rows(&t.strs, "no such thing", None).is_empty());
}

#[test]
fn no_sort_preserves_caster_order() {
    let t = fixture();
    assert_eq!(str_rows(&t.strs, "", None), [0, 1, 2, 3]);
}

#[test]
fn sort_by_mount_is_case_insensitive_both_directions() {
    let t = fixture();
    let asc = str_rows(&t.strs, "", Some((SortKey::Mount, true)));
    assert_eq!(
        mounts(&t.strs, &asc),
        ["BERN0", "OGD1_RTCM3", "P401_RTCM3", "zzz_low"]
    );
    let desc = str_rows(&t.strs, "", Some((SortKey::Mount, false)));
    assert_eq!(
        mounts(&t.strs, &desc),
        ["zzz_low", "P401_RTCM3", "OGD1_RTCM3", "BERN0"]
    );
}

#[test]
fn sort_by_bitrate_is_numeric_not_lexicographic() {
    let t = fixture();
    let asc = str_rows(&t.strs, "", Some((SortKey::Bitrate, true)));
    let rates: Vec<u32> = asc.iter().map(|&i| t.strs[i].bitrate).collect();
    assert_eq!(rates, [500, 2400, 9600, 19200]);
}

#[test]
fn sort_by_country_breaks_ties_by_mountpoint() {
    let t = fixture();
    let asc = str_rows(&t.strs, "", Some((SortKey::Country, true)));
    assert_eq!(
        mounts(&t.strs, &asc),
        ["BERN0", "zzz_low", "OGD1_RTCM3", "P401_RTCM3"]
    );
}

#[test]
fn filter_and_sort_compose() {
    let t = fixture();
    let rows = str_rows(&t.strs, "rtcm", Some((SortKey::Bitrate, false)));
    assert_eq!(
        mounts(&t.strs, &rows),
        ["OGD1_RTCM3", "P401_RTCM3", "BERN0"]
    );
}

/// Selection is keyed by mountpoint, so a refreshed table - reordered or
/// shrunk - can never remap it to a different stream: a mountpoint either
/// names the same stream or nothing.
#[test]
fn selection_resolves_by_mountpoint_not_row_position() {
    let t = fixture();
    assert_eq!(
        resolve_selection(&t.strs, Some("OGD1_RTCM3")),
        Some("OGD1_RTCM3")
    );
    // A refreshed table where the caster reordered and dropped streams:
    // the selection follows the stream, not the row index.
    let refreshed = vec![
        stream("STR;BERN0;Bern;RTCM 3.1;1004;2;GPS;IGS;CHE;46.87;7.46;1;1;LEICA GR25;none;B;Y;500;"),
        stream("STR;OGD1_RTCM3;Ogden;RTCM 3.3;MSM7;2;GPS+GLO+GAL;CHC;USA;41.20;-111.90;0;0;CHC N72;none;B;N;9600;"),
    ];
    assert_eq!(
        resolve_selection(&refreshed, Some("OGD1_RTCM3")),
        Some("OGD1_RTCM3")
    );
    // A stream the refreshed table no longer carries is no selection.
    assert_eq!(resolve_selection(&refreshed, Some("P401_RTCM3")), None);
    assert_eq!(resolve_selection(&t.strs, None), None);
}

#[test]
fn cas_and_net_filters_cover_their_search_fields() {
    let t = fixture();
    let c = &t.casters[0];
    assert!(cas_matches(c, "example.COM"));
    assert!(cas_matches(c, "usa"));
    assert!(!cas_matches(c, "rtcm"));
    let n = &t.networks[0];
    assert!(net_matches(n, "igs"));
    assert!(!net_matches(n, "usa"));
    assert!(str_matches(&t.strs[2], "bern"));
    assert_eq!(cas_rows(&t.casters, "usa"), [0]);
    assert!(net_rows(&t.networks, "usa").is_empty());
    assert_eq!(unparsed_rows(&t.unparsed, "VENDOR"), [0]);
}

/// Three clicks on a header: ascending, descending, caster order again.
#[test]
fn header_clicks_cycle_through_the_orders() {
    let mut v = ViewState::default();
    assert_eq!(sort_header(&v, "Mount", SortKey::Mount), "Mount");
    click_header(&mut v, SortKey::Mount);
    assert_eq!(v.sort, Some((SortKey::Mount, true)));
    assert_ne!(sort_header(&v, "Mount", SortKey::Mount), "Mount");
    click_header(&mut v, SortKey::Mount);
    assert_eq!(v.sort, Some((SortKey::Mount, false)));
    click_header(&mut v, SortKey::Mount);
    assert_eq!(v.sort, None);
    click_header(&mut v, SortKey::Mount);
    click_header(&mut v, SortKey::Bitrate);
    assert_eq!(v.sort, Some((SortKey::Bitrate, true)), "another key starts over");
}

#[test]
fn case_is_ignored_in_the_order_of_texts() {
    assert!(cmp_ci("alpha", "BETA").is_lt());
    assert!(cmp_ci("BETA", "alpha").is_gt());
    assert!(cmp_ci("Mount", "mOUNT").is_eq());
    assert!(cmp_ci("ab", "abc").is_lt());
}

#[test]
fn clicks_select_and_double_clicks_use() {
    let t = fixture();
    let mut v = ViewState::default();
    assert!(click_row(&mut v, &t.strs[1], false).is_none());
    assert!(row_selected(&v, &t.strs[1]) && !row_selected(&v, &t.strs[0]));
    let f = footer(&v, &t);
    assert_eq!(f.chosen.as_deref(), Some("OGD1_RTCM3"));
    match click_row(&mut v, &t.strs[0], true) {
        Some(Pending::UseMount(m)) => assert_eq!(m, "P401_RTCM3"),
        other => panic!("{other:?}"),
    }
}

#[test]
fn the_unparsed_tab_needs_unparsed_lines() {
    let mut t = fixture();
    assert_eq!(tabs(&t).len(), 4);
    let mut v = ViewState::default();
    v.tab = Tab::Unparsed;
    sync_view(&mut v, &t);
    assert_eq!(v.tab, Tab::Unparsed);
    t.unparsed.clear();
    assert_eq!(tabs(&t).len(), 3);
    sync_view(&mut v, &t);
    assert_eq!(v.tab, Tab::Str);
}

#[test]
fn the_footer_counts_what_is_shown() {
    let t = fixture();
    assert_ne!(
        footer_counts(&t, Tab::Str, ""),
        footer_counts(&t, Tab::Str, "rtcm")
    );
    assert!(footer_counts(&t, Tab::Str, "rtcm").contains('3'));
}

#[test]
fn every_row_has_a_cell_per_column() {
    let t = fixture();
    let cells = str_cells(&t.strs[0], "45.50", "-122.60");
    assert_eq!(cells.len(), str_columns().len());
    assert!(cells.contains(&"P401_RTCM3".to_string()));
    assert!(cells.contains(&"45.50".to_string()));
    assert!(cas_cells(&t.casters[0], "45.00", "-122.00").contains(&"2101".to_string()));
    assert!(net_cells(&t.networks[0]).contains(&"IGSNET".to_string()));
}

#[test]
fn the_toolbar_refreshes_an_idle_caster() {
    let mut v = ViewState::default();
    assert!(toolbar(&v, "h", 2101, false).refresh_enabled);
    assert!(!toolbar(&v, "h", 2101, true).refresh_enabled);
    assert!(!toolbar(&v, "", 2101, false).refresh_enabled);
    assert!(!toolbar(&v, "h", 2101, false).clear_offered);
    v.filter = "x".to_string();
    assert!(toolbar(&v, "h", 2101, false).clear_offered);
    assert!(empty_hint("caster", 2101).iter().any(|l| l.contains("caster")));
}
