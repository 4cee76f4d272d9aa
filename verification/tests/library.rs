use profile_report::aggregate::{compute_effectiveness, compute_occupancy};
use profile_report::data_model::{Child, FileReference, ModuleInstanceDetails, Node, Profile};
use profile_report::decode::{parse_profile, SchemaError};
use profile_report::numeric::{
    parse_bool, parse_decimal, parse_i32, parse_u32, parse_u64, Decimal, MICRO,
};
use profile_report::render::format_file_references;
use profile_report::report::{
    channel_section, external_memory_section, global_memory_section, local_memory_section,
    loop_section,
};

fn wrap_profile(kernels: &str) -> String {
    format!(
        "{{\"json_type\":\"profile\",\"versions\":{{\"profiler_json_version\":\"1\",\"aocx_version\":\"2\"}},\"kernels\":{},\"boards\":{{\"nodes\":\"\"}},\"memtransfers\":{{\"nodes\":\"\"}},\"channels\":{{\"nodes\":\"\"}},\"run_info\":{{\"nodes\":\"\"}}}}",
        kernels
    )
}

fn kernel_json(name: &str, start: &str, end: &str, timestamps: &str, cycles: &str, children: &str) -> String {
    format!(
        "{{\"type\":\"kernel\",\"name\":\"{}\",\"compute_unit\":\"1\",\"sourcefile\":{{\"filename\":\"main.cl\",\"line\":\"1\"}},\"device_ids\":[\"0\"],\"start_time\":\"{}\",\"end_time\":\"{}\",\"num_samples\":\"0\",\"shared_counter_run_type\":\"-1\",\"sample_timestamps\":{},\"total_cycles_between_samples\":{},\"is_autorun\":\"false\",\"children\":{}}}",
        name, start, end, timestamps, cycles, children
    )
}

fn loop_child(occupancy: &str) -> String {
    format!(
        "{{\"type\":\"moduleinst\",\"name\":\"m\",\"sourcefiles\":[{{\"filename\":\"main.cl\",\"line\":\"5\"}}],\"module_inst_details\":{{\"mem_type\":\"__loop\",\"occupancy_samples\":{}}}}}",
        occupancy
    )
}

fn global_child(bandwidth: &str, effective: &str, burst: &str, cache: Option<&str>, occupancy: &str) -> String {
    let cache_field = match cache {
        Some(c) => format!("\"cache_hit_samples\":{},", c),
        None => String::new(),
    };
    format!(
        "{{\"type\":\"moduleinst\",\"name\":\"g\",\"sourcefiles\":[{{\"filename\":\"main.cl\",\"line\":\"9\"}}],\"module_inst_details\":{{\"mem_type\":\"__global\",\"operation_type\":\"read\",\"occupancy_samples\":{},\"stall_samples\":[],\"idle_samples\":[],\"activity_samples\":[],\"bandwidth_samples\":{},\"bandwidth_eff_samples\":{},{}\"coalesced_memory\":\"true\",\"global_mem_name\":\"DDR\",\"average_burst_size\":{}}}}}",
        occupancy, bandwidth, effective, cache_field, burst
    )
}

#[test]
fn string_encoded_u64_decodes() {
    assert_eq!(parse_u64("123"), Some(123));
    assert_eq!(parse_u64("0"), Some(0));
    assert_eq!(parse_u64("+7"), Some(7));
    assert_eq!(parse_u64("18446744073709551615"), Some(u64::MAX));
}

#[test]
fn string_encoded_u64_rejects_bad_text() {
    assert_eq!(parse_u64(""), None);
    assert_eq!(parse_u64("12a"), None);
    assert_eq!(parse_u64("-3"), None);
    assert_eq!(parse_u64("18446744073709551616"), None);
    assert_eq!(parse_u64("+"), None);
}

#[test]
fn string_encoded_u32_and_i32_decode() {
    assert_eq!(parse_u32("4294967295"), Some(u32::MAX));
    assert_eq!(parse_u32("4294967296"), None);
    assert_eq!(parse_i32("-5"), Some(-5));
    assert_eq!(parse_i32("-2147483648"), Some(i32::MIN));
    assert_eq!(parse_i32("2147483647"), Some(i32::MAX));
    assert_eq!(parse_i32("2147483648"), None);
    assert_eq!(parse_i32("-2147483649"), None);
}

#[test]
fn string_encoded_bool_decodes() {
    assert_eq!(parse_bool("true"), Some(true));
    assert_eq!(parse_bool("false"), Some(false));
    assert_eq!(parse_bool("True"), None);
    assert_eq!(parse_bool("1"), None);
}

#[test]
fn string_encoded_decimal_decodes_to_millionths() {
    assert_eq!(parse_decimal("1.5"), Some(Decimal { micro: 1500000 }));
    assert_eq!(parse_decimal("123"), Some(Decimal { micro: 123 * MICRO }));
    assert_eq!(parse_decimal(".5"), Some(Decimal { micro: 500000 }));
    assert_eq!(parse_decimal("5."), Some(Decimal { micro: 5000000 }));
    assert_eq!(parse_decimal("0.000001"), Some(Decimal { micro: 1 }));
    assert_eq!(parse_decimal("abc"), None);
    assert_eq!(parse_decimal(""), None);
    assert_eq!(parse_decimal("."), None);
    assert_eq!(parse_decimal("1.2.3"), None);
}

#[test]
fn sentinel_empty_string_is_empty_collection() {
    let text = wrap_profile("{\"nodes\":\"\"}");
    let p = parse_profile(&text).expect("profile should decode");
    assert_eq!(p.kernels.nodes.len(), 0);
}

#[test]
fn sentinel_non_empty_string_is_schema_error() {
    let text = wrap_profile("{\"nodes\":\"oops\"}");
    assert_eq!(parse_profile(&text).map(|_| ()), Err(SchemaError::NonEmptyString));
}

#[test]
fn invalid_json_is_syntax_error() {
    assert_eq!(parse_profile("not json").map(|_| ()), Err(SchemaError::Syntax));
}

#[test]
fn missing_field_is_schema_error() {
    let text = wrap_profile(
        "{\"nodes\":[{\"type\":\"kernel\",\"compute_unit\":\"1\"}]}",
    );
    assert_eq!(parse_profile(&text).map(|_| ()), Err(SchemaError::MissingField));
}

#[test]
fn unknown_tag_is_schema_error() {
    let text = wrap_profile("{\"nodes\":[{\"type\":\"bogus\"}]}");
    assert_eq!(parse_profile(&text).map(|_| ()), Err(SchemaError::UnknownTag));
}

#[test]
fn non_numeric_scalar_is_schema_error() {
    let k = kernel_json("k", "zero", "100", "[]", "[]", "[]");
    let text = wrap_profile(&format!("{{\"nodes\":[{}]}}", k));
    assert_eq!(parse_profile(&text).map(|_| ()), Err(SchemaError::BadValue));
}

#[test]
fn kernel_fields_decode() {
    let k = kernel_json("k1", "3", "100", "[\"10\",\"20\"]", "[\"7\",\"8\"]", "[]");
    let text = wrap_profile(&format!("{{\"nodes\":[{}]}}", k));
    let p = parse_profile(&text).expect("profile should decode");
    assert_eq!(p.json_type, "profile");
    assert_eq!(p.versions.profiler_json_version, "1");
    assert_eq!(p.kernels.nodes.len(), 1);
    match &p.kernels.nodes[0] {
        Node::Kernel(k) => {
            assert_eq!(k.name, "k1");
            assert_eq!(k.compute_unit, 1);
            assert_eq!(k.start_time, 3);
            assert_eq!(k.end_time, 100);
            assert_eq!(k.shared_counter_run_type, -1);
            assert_eq!(k.sample_timestamps, vec![10, 20]);
            assert_eq!(k.total_cycles_between_samples, vec![7, 8]);
            assert_eq!(k.source_file.file_name, "main.cl");
            assert_eq!(k.source_file.line, 1);
            assert!(!k.is_autorun);
        }
        _ => panic!("expected a kernel node"),
    }
}

#[test]
fn timeline_checks_spot_descending_timestamps() {
    let good = kernel_json("k", "0", "30", "[\"10\",\"20\",\"30\"]", "[\"10\",\"10\",\"10\"]", "[]");
    let text = wrap_profile(&format!("{{\"nodes\":[{}]}}", good));
    let p = parse_profile(&text).expect("profile should decode");
    assert!(profile_report::data_model::profile_timelines_wf(&p));

    let bad = kernel_json("k", "0", "30", "[\"20\",\"10\"]", "[\"10\",\"10\"]", "[]");
    let text2 = wrap_profile(&format!("{{\"nodes\":[{}]}}", bad));
    let p2 = parse_profile(&text2).expect("profile should decode");
    assert!(!profile_report::data_model::profile_timelines_wf(&p2));
    match &p2.kernels.nodes[0] {
        Node::Kernel(k) => assert!(!profile_report::data_model::kernel_timeline_wf(k)),
        _ => panic!("expected a kernel"),
    }
}

#[test]
fn occupancy_of_single_kernel() {
    let k = kernel_json(
        "k",
        "0",
        "30",
        "[\"10\",\"20\",\"30\"]",
        "[\"10\",\"10\",\"10\"]",
        &format!("[{}]", loop_child("[\"5\",\"10\",\"0\"]")),
    );
    let text = wrap_profile(&format!("{{\"nodes\":[{}]}}", k));
    let p = parse_profile(&text).expect("profile should decode");
    let section = loop_section(&p, &None);
    assert_eq!(section.len(), 1);
    let occ = &section[0].stats.occupancy;
    assert_eq!(occ.occupancy_sum, 15);
    assert_eq!(occ.cycles_sum, 30);
    let percent = occ.occupancy_sum as f64 / occ.cycles_sum as f64 * 100.0;
    assert_eq!(percent, 50.0);
}

#[test]
fn overlap_merge_deduplicates_wall_time() {
    // spans (0,100), (50,150), (200,250) merge to (0,150), (200,250): 200.
    let g = global_child("[]", "[]", "[]", None, "[]");
    let k1 = kernel_json("a", "0", "100", "[]", "[]", &format!("[{}]", g));
    let k2 = kernel_json("b", "50", "150", "[]", "[]", &format!("[{}]", g));
    let k3 = kernel_json("c", "200", "250", "[]", "[]", &format!("[{}]", g));
    let text = wrap_profile(&format!("{{\"nodes\":[{},{},{}]}}", k1, k2, k3));
    let p = parse_profile(&text).expect("profile should decode");
    let section = global_memory_section(&p, &None);
    assert_eq!(section.len(), 1);
    assert_eq!(section[0].stats.bandwidth.merged_runtime, 200);
    assert_eq!(section[0].stats.bandwidth.integral_micro, 0);
}

#[test]
fn bandwidth_merges_identical_windows() {
    // two overlapping instances, each one interval of duration 100 at
    // bandwidth 10: integral 2000, merged duration 100, so 20, not 10.
    let g = global_child("[\"10\"]", "[]", "[]", None, "[]");
    let k1 = kernel_json("a", "0", "100", "[\"100\"]", "[\"100\"]", &format!("[{}]", g));
    let k2 = kernel_json("b", "0", "100", "[\"100\"]", "[\"100\"]", &format!("[{}]", g));
    let text = wrap_profile(&format!("{{\"nodes\":[{},{}]}}", k1, k2));
    let p = parse_profile(&text).expect("profile should decode");
    let section = global_memory_section(&p, &None);
    assert_eq!(section.len(), 1);
    let bw = &section[0].stats.bandwidth;
    assert_eq!(bw.merged_runtime, 100);
    assert_eq!(bw.integral_micro, 2000 * MICRO as u128);
    let value = bw.integral_micro as f64 / MICRO as f64 / bw.merged_runtime as f64;
    assert_eq!(value, 20.0);
}

#[test]
fn nested_window_cannot_shrink_merged_wall_time() {
    // (0,100) with (50,70) strictly inside still covers 100 units.
    let g = global_child("[]", "[]", "[]", None, "[]");
    let k1 = kernel_json("a", "0", "100", "[]", "[]", &format!("[{}]", g));
    let k2 = kernel_json("b", "50", "70", "[]", "[]", &format!("[{}]", g));
    let text = wrap_profile(&format!("{{\"nodes\":[{},{}]}}", k1, k2));
    let p = parse_profile(&text).expect("profile should decode");
    let section = global_memory_section(&p, &None);
    assert_eq!(section.len(), 1);
    assert_eq!(section[0].stats.bandwidth.merged_runtime, 100);
}

#[test]
fn expansion_groups_by_kernel_then_instance() {
    fn named_loop(name: &str) -> String {
        format!(
            "{{\"type\":\"moduleinst\",\"name\":\"{}\",\"sourcefiles\":[{{\"filename\":\"main.cl\",\"line\":\"5\"}}],\"module_inst_details\":{{\"mem_type\":\"__loop\",\"occupancy_samples\":[\"1\"]}}}}",
            name
        )
    }
    let ka = kernel_json(
        "a",
        "0",
        "10",
        "[\"10\"]",
        "[\"10\"]",
        &format!("[{},{}]", named_loop("u2"), named_loop("u1")),
    );
    let kb = kernel_json("b", "0", "10", "[\"10\"]", "[\"10\"]", &format!("[{}]", named_loop("u1")));
    let text = wrap_profile(&format!("{{\"nodes\":[{},{}]}}", kb, ka));
    let p = parse_profile(&text).expect("profile should decode");
    let kernels = &p.kernels.nodes;
    let items = profile_report::group::select_items(kernels, &None, profile_report::group::SectionKind::Loop);
    let groups = profile_report::group::group_by_source(kernels, &items, profile_report::group::SectionKind::Loop);
    assert_eq!(groups.len(), 1);
    let nested = profile_report::group::expand_group(kernels, &groups[0]);
    // kernel names ascending: a (two unroll instances, names ascending), then b.
    assert_eq!(nested.len(), 2);
    assert_eq!(nested[0].len(), 2);
    assert_eq!(nested[1].len(), 1);
    let name_of = |item: (usize, usize)| match &kernels[item.0] {
        Node::Kernel(k) => match &k.children[item.1] {
            Child::ModuleInstance(m) => (k.name.clone(), m.name.clone()),
            _ => panic!("expected a module instance"),
        },
        _ => panic!("expected a kernel"),
    };
    assert_eq!(name_of(nested[0][0][0]), (String::from("a"), String::from("u1")));
    assert_eq!(name_of(nested[0][1][0]), (String::from("a"), String::from("u2")));
    assert_eq!(name_of(nested[1][0][0]), (String::from("b"), String::from("u1")));
}

#[test]
fn effectiveness_cache_hit_is_conditional() {
    let g_no_cache = global_child("[]", "[\"0.5\"]", "[\"2\"]", None, "[\"4\"]");
    let k = kernel_json("a", "0", "10", "[\"10\"]", "[\"10\"]", &format!("[{}]", g_no_cache));
    let text = wrap_profile(&format!("{{\"nodes\":[{}]}}", k));
    let p = parse_profile(&text).expect("profile should decode");
    let section = global_memory_section(&p, &None);
    assert!(!section[0].stats.effectiveness.cache_hit_present);

    let g_cache = global_child("[]", "[\"0.5\"]", "[\"2\"]", Some("[\"2\"]"), "[\"4\"]");
    let k2 = kernel_json("a", "0", "10", "[\"10\"]", "[\"10\"]", &format!("[{}]", g_cache));
    let text2 = wrap_profile(&format!("{{\"nodes\":[{}]}}", k2));
    let p2 = parse_profile(&text2).expect("profile should decode");
    let section2 = global_memory_section(&p2, &None);
    let eff = &section2[0].stats.effectiveness;
    assert!(eff.cache_hit_present);
    assert_eq!(eff.cache_hit_sum_micro, 2 * MICRO as u128);
    assert_eq!(eff.occupancy_sum, 4);
    assert_eq!(eff.sample_count, 1);
    assert_eq!(eff.effective_sum_micro, 500000);
    assert_eq!(eff.burst_sum_micro, 2 * MICRO as u128);
}

#[test]
fn kernel_filter_excludes_everything_else() {
    let l = loop_child("[\"5\"]");
    let ext = "{\"type\":\"extmem\",\"name\":\"DDR\",\"interface\":\"i\",\"port\":\"p0\",\"global_used_bw\":[\"8\"],\"avg_write_burst\":[\"1.5\"],\"avg_read_burst\":[\"2\"]}";
    let k1 = kernel_json("keep", "0", "10", "[\"10\"]", "[\"10\"]", &format!("[{}]", l));
    let k2 = kernel_json("drop", "0", "50", "[\"50\"]", "[\"50\"]", &format!("[{},{}]", l, ext));
    let text = wrap_profile(&format!("{{\"nodes\":[{},{}]}}", k1, k2));
    let p = parse_profile(&text).expect("profile should decode");

    let all = loop_section(&p, &None);
    assert_eq!(all.len(), 1);
    assert_eq!(all[0].stats.occupancy.cycles_sum, 60);

    let allow = Some(vec![String::from("keep")]);
    let filtered = loop_section(&p, &allow);
    assert_eq!(filtered.len(), 1);
    assert_eq!(filtered[0].stats.occupancy.cycles_sum, 10);

    let ext_all = external_memory_section(&p, &None);
    assert_eq!(ext_all.len(), 1);
    let ext_filtered = external_memory_section(&p, &allow);
    assert_eq!(ext_filtered.len(), 0);
}

#[test]
fn external_memory_sums_plain_durations() {
    let ext = "{\"type\":\"extmem\",\"name\":\"DDR\",\"interface\":\"i\",\"port\":\"p0\",\"global_used_bw\":[\"8\"],\"avg_write_burst\":[\"1.5\"],\"avg_read_burst\":[\"2\"]}";
    // two kernels with identical overlapping windows: durations still add.
    let k1 = kernel_json("a", "0", "50", "[\"50\"]", "[\"50\"]", &format!("[{}]", ext));
    let k2 = kernel_json("b", "0", "50", "[\"50\"]", "[\"50\"]", &format!("[{}]", ext));
    let text = wrap_profile(&format!("{{\"nodes\":[{},{}]}}", k1, k2));
    let p = parse_profile(&text).expect("profile should decode");
    let section = external_memory_section(&p, &None);
    assert_eq!(section.len(), 1);
    let st = &section[0].stats;
    assert_eq!(st.duration_sum, 100);
    assert_eq!(st.bandwidth_integral_micro, 2 * 50 * 8 * MICRO as u128);
    assert_eq!(st.write_burst_integral_micro, 2 * 50 * 1500000);
    assert_eq!(st.read_burst_integral_micro, 2 * 50 * 2 * MICRO as u128);
}

#[test]
fn groups_order_by_source_chain() {
    let l1 = "{\"type\":\"moduleinst\",\"name\":\"m1\",\"sourcefiles\":[{\"filename\":\"z.cl\",\"line\":\"1\"}],\"module_inst_details\":{\"mem_type\":\"__loop\",\"occupancy_samples\":[\"1\"]}}";
    let l2 = "{\"type\":\"moduleinst\",\"name\":\"m2\",\"sourcefiles\":[{\"filename\":\"a.cl\",\"line\":\"9\"}],\"module_inst_details\":{\"mem_type\":\"__loop\",\"occupancy_samples\":[\"2\"]}}";
    let k = kernel_json("k", "0", "10", "[\"10\"]", "[\"10\"]", &format!("[{},{}]", l1, l2));
    let text = wrap_profile(&format!("{{\"nodes\":[{}]}}", k));
    let p = parse_profile(&text).expect("profile should decode");
    let section = loop_section(&p, &None);
    assert_eq!(section.len(), 2);
    // a.cl sorts before z.cl; the a.cl group is the m2 instance.
    assert_eq!(section[0].stats.occupancy.occupancy_sum, 2);
    assert_eq!(section[1].stats.occupancy.occupancy_sum, 1);
    // re-running gives the identical grouping.
    let again = loop_section(&p, &None);
    assert_eq!(again.len(), 2);
    assert_eq!(again[0].first_item, section[0].first_item);
    assert_eq!(again[1].first_item, section[1].first_item);
}

#[test]
fn channel_depth_takes_elementwise_maximum() {
    let ch = "{\"type\":\"moduleinst\",\"name\":\"c\",\"sourcefiles\":[{\"filename\":\"main.cl\",\"line\":\"3\"}],\"module_inst_details\":{\"mem_type\":\"__channel\",\"operation_type\":\"write\",\"occupancy_samples\":[\"1\",\"2\"],\"stall_samples\":[\"0\",\"0\"],\"idle_samples\":[\"0\",\"0\"],\"average_channel_depth_samples\":[\"1.5\",\"2.5\"],\"max_channel_depth_samples\":[\"3\",\"7\"],\"activity_samples\":[\"1\",\"1\"],\"bandwidth_samples\":[\"0\",\"0\"],\"coalesced_memory\":\"false\"}}";
    let k = kernel_json("k", "0", "20", "[\"10\",\"20\"]", "[\"10\",\"10\"]", &format!("[{}]", ch));
    let text = wrap_profile(&format!("{{\"nodes\":[{}]}}", k));
    let p = parse_profile(&text).expect("profile should decode");
    let section = channel_section(&p, &None);
    assert_eq!(section.len(), 1);
    let depth = &section[0].stats.channel_depth;
    assert_eq!(depth.sample_count, 2);
    assert_eq!(depth.average_sum_micro, 4 * MICRO as u128);
    assert_eq!(depth.maximum_depth, 7);
    let stall = &section[0].stats.stall;
    assert_eq!(stall.activity_sum, 2);
    assert_eq!(stall.cycles_sum, 20);
}

#[test]
fn local_memory_stall_figures() {
    let l = "{\"type\":\"moduleinst\",\"name\":\"lm\",\"sourcefiles\":[{\"filename\":\"main.cl\",\"line\":\"4\"}],\"module_inst_details\":{\"mem_type\":\"__local\",\"operation_type\":\"read\",\"occupancy_samples\":[\"6\"],\"stall_samples\":[\"2\"],\"idle_samples\":[\"1\"],\"activity_samples\":[\"3\"],\"coalesced_memory\":\"true\"}}";
    let k = kernel_json("k", "0", "10", "[\"10\"]", "[\"10\"]", &format!("[{}]", l));
    let text = wrap_profile(&format!("{{\"nodes\":[{}]}}", k));
    let p = parse_profile(&text).expect("profile should decode");
    let section = local_memory_section(&p, &None);
    assert_eq!(section.len(), 1);
    let stall = &section[0].stats.stall;
    assert_eq!(stall.stall_sum, 2);
    assert_eq!(stall.idle_sum, 1);
    assert_eq!(stall.activity_sum, 3);
    assert_eq!(stall.cycles_sum, 10);
    assert_eq!(section[0].stats.occupancy.occupancy_sum, 6);
}

#[test]
fn boards_and_run_information_decode() {
    let text = "{\"json_type\":\"profile\",\"versions\":{\"profiler_json_version\":\"1\",\"aocx_version\":\"2\"},\"kernels\":{\"nodes\":\"\"},\"boards\":{\"nodes\":[{\"type\":\"board\",\"board_type\":\"b1\",\"children\":[{\"type\":\"globalmem\",\"global_memory_name\":\"DDR\",\"max_theoretical_globalmem_bw\":\"25.5\",\"max_burst_count\":\"16\"}]}]},\"memtransfers\":{\"nodes\":\"\"},\"channels\":{\"nodes\":\"\"},\"run_info\":{\"nodes\":[{\"type\":\"runinfo\",\"fmax\":\"300.25\"}]}}";
    let p = parse_profile(text).expect("profile should decode");
    let boards = profile_report::report::board_indices(&p.boards.nodes);
    assert_eq!(boards.len(), 1);
    match &p.boards.nodes[boards[0]] {
        Node::Board(b) => {
            assert_eq!(b.board_type, "b1");
            let gms = profile_report::report::global_memory_indices(&b.children);
            assert_eq!(gms.len(), 1);
            match &b.children[gms[0]] {
                Child::GlobalMemory(g) => {
                    assert_eq!(g.global_memory_name, "DDR");
                    assert_eq!(g.maximum_theoretical_global_memory_bandwidth.micro, 25500000);
                    assert_eq!(g.maximum_burst_count.micro, 16 * MICRO);
                }
                _ => panic!("expected global memory"),
            }
        }
        _ => panic!("expected a board"),
    }
    let fmax = profile_report::report::run_information_values(&p);
    assert_eq!(fmax.len(), 1);
    assert_eq!(fmax[0].micro, 300250000);
}

#[test]
fn file_reference_chain_formats_with_callsites() {
    let inner = FileReference {
        file_name: String::from("b.cl"),
        line: 7,
        column_number: Some(3),
        callsite: Vec::new(),
    };
    let outer = FileReference {
        file_name: String::from("a.cl"),
        line: 10,
        column_number: None,
        callsite: vec![inner],
    };
    let rendered = format_file_references(&[outer], 0);
    assert_eq!(rendered, "a.cl (line: 10)\n\u{2ba4} b.cl (line: 7, column: 3)");
}

#[test]
fn recursive_callsites_decode() {
    let k = kernel_json("k", "0", "10", "[]", "[]", "[]");
    let with_chain = k.replace(
        "\"sourcefile\":{\"filename\":\"main.cl\",\"line\":\"1\"}",
        "\"sourcefile\":{\"filename\":\"main.cl\",\"line\":\"1\",\"callsite\":[{\"filename\":\"lib.cl\",\"line\":\"42\",\"column_num\":\"8\"}]}",
    );
    let text = wrap_profile(&format!("{{\"nodes\":[{}]}}", with_chain));
    let p = parse_profile(&text).expect("profile should decode");
    match &p.kernels.nodes[0] {
        Node::Kernel(kn) => {
            assert_eq!(kn.source_file.callsite.len(), 1);
            assert_eq!(kn.source_file.callsite[0].file_name, "lib.cl");
            assert_eq!(kn.source_file.callsite[0].line, 42);
            assert_eq!(kn.source_file.callsite[0].column_number, Some(8));
        }
        _ => panic!("expected a kernel"),
    }
}

#[test]
fn details_variants_match_their_tags() {
    let text = wrap_profile(&format!(
        "{{\"nodes\":[{}]}}",
        kernel_json("k", "0", "10", "[\"10\"]", "[\"10\"]", &format!("[{}]", loop_child("[\"1\"]")))
    ));
    let p = parse_profile(&text).expect("profile should decode");
    match &p.kernels.nodes[0] {
        Node::Kernel(k) => match &k.children[0] {
            Child::ModuleInstance(m) => {
                assert!(matches!(m.module_instance_details, ModuleInstanceDetails::Loop(_)));
            }
            _ => panic!("expected a module instance"),
        },
        _ => panic!("expected a kernel"),
    }
}

#[test]
fn compute_functions_accept_borrowed_pairs() {
    let k = kernel_json("k", "0", "10", "[\"10\"]", "[\"10\"]", &format!("[{}]", loop_child("[\"4\"]")));
    let text = wrap_profile(&format!("{{\"nodes\":[{}]}}", k));
    let p: Profile = parse_profile(&text).expect("profile should decode");
    match &p.kernels.nodes[0] {
        Node::Kernel(kn) => match &kn.children[0] {
            Child::ModuleInstance(m) => match &m.module_instance_details {
                ModuleInstanceDetails::Loop(l) => {
                    let pairs = vec![(kn, l)];
                    let occ = compute_occupancy(&pairs);
                    assert_eq!(occ.occupancy_sum, 4);
                    assert_eq!(occ.cycles_sum, 10);
                }
                _ => panic!("expected a loop"),
            },
            _ => panic!("expected a module instance"),
        },
        _ => panic!("expected a kernel"),
    }
}

#[test]
fn effectiveness_zip_truncates_to_shorter_array() {
    let g = global_child("[]", "[\"0.5\",\"1.5\"]", "[\"2\"]", None, "[]");
    let k = kernel_json("k", "0", "10", "[\"10\"]", "[\"10\"]", &format!("[{}]", g));
    let text = wrap_profile(&format!("{{\"nodes\":[{}]}}", k));
    let p = parse_profile(&text).expect("profile should decode");
    match &p.kernels.nodes[0] {
        Node::Kernel(kn) => match &kn.children[0] {
            Child::ModuleInstance(m) => match &m.module_instance_details {
                ModuleInstanceDetails::Global(g) => {
                    let pairs = vec![(kn, g)];
                    let eff = compute_effectiveness(&pairs);
                    // only one (effective, burst) pair zips.
                    assert_eq!(eff.sample_count, 1);
                    assert_eq!(eff.effective_sum_micro, 500000);
                }
                _ => panic!("expected a global"),
            },
            _ => panic!("expected a module instance"),
        },
        _ => panic!("expected a kernel"),
    }
}
