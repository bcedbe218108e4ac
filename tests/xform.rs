use seq_geom_xform::{
    var_len_bc_padding, xform_read_pair, CompileError, FragmentGeomDesc, FragmentGeomDescExt, GeomLen, GeomPiece,
    SeqPair, XformStats,
};

fn sciseq3_geometry() -> FragmentGeomDesc {
    FragmentGeomDesc {
        read1_desc: vec![
            GeomPiece::Barcode(GeomLen::LenRange(9, 10)),
            GeomPiece::Fixed(String::from("CAGAGC")),
            GeomPiece::Umi(GeomLen::FixedLen(8)),
            GeomPiece::Barcode(GeomLen::FixedLen(10)),
        ],
        read2_desc: vec![GeomPiece::ReadSeq(GeomLen::Unbounded)],
    }
}

#[test]
fn sciseq3_transforms() {
    let test_technical_reads = vec![
        ("TNGCGCATTCAGAGCGCCACTTTCGGAAGATATTTT", true, 9),
        ("TNTATACCTTCAGAGCGTGAGGATGTCCTAGAGGTT", true, 10),
        ("AGAGATGAATCAGAGCTGTGCCGGGCTAACCTCATT", true, 10),
        ("TGAACGCGTTTTTTTTTTTTTTTTTTTTTTTTTTTT", false, 0),
        ("AAACTCCAATCAGAGCTCCGAGACAACCATTGGATT", true, 10),
        ("ACGAGGTTTCTGAGCCGATAAAGTGATGGCCTTTTT", false, 0),
        ("GCTCTTAGTCAGAGCCGTTTTGGGCGACGCCTTTTT", true, 9),
        ("TCCGTATGTCAGAGCGACTGATGTTATAGCAGATTT", true, 9),
        ("TCTCTCCATCAGAGCAAAAGATTCATTCAATCATTC", true, 9),
        ("AGAACTCCTCTGAGCAATGTCGCTTATTCTGAGTTT", false, 0),
        ("AAGTATTGGTCAGAGCTACGCATTACGCAACTCCTT", true, 10),
        ("TGTCCTTATTCAGAGCCCATTTACGCCACGCAGCTC", true, 10),
        ("GCGCTCAATCAGAGCCGGTGGAAAGACTCAAGCCCT", true, 9),
        ("TTCTTAACCTCAGAGCTGACTAGTACTAGAGAGTTT", true, 10),
        ("TCCTCGAGTCAGAGCGTCCTGGCTTAATTATTGTTT", true, 9),
        ("AACTGGCATCAGAGCCCTCTAATGATCGCTTCTTTT", true, 9),
        ("TATGCGATTTCAGAGCGCGGGGGGCCGAGAATCCTT", true, 10),
        ("TAGTTACCTTCAGAGCGGTTTACACATCCGACTATT", true, 10),
        ("CAAGCAACTCAGAGCTTTTTCTTTCGCGGTTGGTTT", true, 9),
        ("ACCGTAGCTCAGAGCGGCCAGTTACGCAACTCCTTT", true, 9),
        ("CCAAGGATTCAGAGCGGCGCGCCATCCATGACTTTT", true, 9),
        ("TTACTAAGTCAGAGCAGAGGGACGCCAGGATCTTTT", true, 9),
        ("GTAGCGATTCAGAGCAGGCGTGATTATAGCAGATTT", true, 9),
        ("AGCAACGATCTGAGCATATTCAGACCGCGCAACCAT", false, 0),
        ("ATTAATGCCTCAGAGCACGGTACAGATCTTACGCTT", true, 10),
    ];

    let geo = sciseq3_geometry();

    let mut sp = SeqPair::new();
    match geo.as_regex() {
        Ok(mut geo_re) => {
            for (tr, should_parse, pref_len) in &test_technical_reads {
                let r = geo_re.parse_into(tr.as_bytes(), tr.as_bytes(), &mut sp);
                assert_eq!(r, *should_parse);
                if r {
                    match pref_len {
                        9 => {
                            assert_eq!(&sp.s1[9..11], var_len_bc_padding(1));
                        }
                        10 => {
                            assert_eq!(&sp.s1[10..11], var_len_bc_padding(0));
                        }
                        _ => {
                            panic!("shouldn't happen");
                        }
                    }
                }
            }
        }
        Err(e) => {
            panic!("{:?} : couldn't parse valid geometry!", e);
        }
    }
}

#[test]
fn padding_table_entries() {
    assert_eq!(var_len_bc_padding(0), "A");
    assert_eq!(var_len_bc_padding(1), "AC");
    assert_eq!(var_len_bc_padding(2), "AAG");
    assert_eq!(var_len_bc_padding(3), "AAAT");
    assert_eq!(var_len_bc_padding(4), "AAAAN");
}

#[test]
fn bounded_range_padded_to_one_past_upper_bound() {
    let geo = sciseq3_geometry();
    let mut geo_re = geo.as_regex().unwrap();
    let mut sp = SeqPair::new();
    let short = "TNGCGCATTCAGAGCGCCACTTTCGGAAGATATTTT";
    assert!(geo_re.parse_into(short.as_bytes(), short.as_bytes(), &mut sp));
    assert_eq!(sp.s1, "TNGCGCATTACGCCACTTTCGGAAGATAT");
    assert_eq!(sp.s1.len(), 11 + 8 + 10);
    assert_eq!(sp.s2, short);
    let long = "TNTATACCTTCAGAGCGTGAGGATGTCCTAGAGGTT";
    assert!(geo_re.parse_into(long.as_bytes(), long.as_bytes(), &mut sp));
    assert_eq!(sp.s1, "TNTATACCTTAGTGAGGATGTCCTAGAGG");
    assert_eq!(sp.s1.len(), 11 + 8 + 10);
}

#[test]
fn widest_range_uses_last_filler() {
    let geo = FragmentGeomDesc {
        read1_desc: vec![
            GeomPiece::Umi(GeomLen::LenRange(2, 6)),
            GeomPiece::Fixed(String::from("TTTT")),
            GeomPiece::Barcode(GeomLen::FixedLen(2)),
        ],
        read2_desc: vec![GeomPiece::ReadSeq(GeomLen::Unbounded)],
    };
    let mut geo_re = geo.as_regex().unwrap();
    let mut sp = SeqPair::new();
    assert!(geo_re.parse_into(b"ACTTTTGG", b"CCC", &mut sp));
    assert_eq!(sp.s1, "ACAAAANGG");
    assert!(geo_re.parse_into(b"ACGTACTTTTGG", b"CCC", &mut sp));
    assert_eq!(sp.s1, "ACGTACAGG");
}

#[test]
fn fixed_last_piece_accepts_longer_rejects_shorter() {
    let geo = FragmentGeomDesc {
        read1_desc: vec![
            GeomPiece::Barcode(GeomLen::FixedLen(4)),
            GeomPiece::Umi(GeomLen::FixedLen(2)),
        ],
        read2_desc: vec![GeomPiece::ReadSeq(GeomLen::Unbounded)],
    };
    let mut geo_re = geo.as_regex().unwrap();
    let mut sp = SeqPair::new();
    assert!(geo_re.parse_into(b"ACGTACGTTT", b"GG", &mut sp));
    assert_eq!(sp.s1, "ACGTAC");
    assert_eq!(sp.s2, "GG");
    assert!(geo_re.parse_into(b"ACGTAC", b"GG", &mut sp));
    assert_eq!(sp.s1, "ACGTAC");
    assert!(!geo_re.parse_into(b"ACGTA", b"GG", &mut sp));
    assert!(!geo_re.parse_into(b"ACGTAXGG", b"GG", &mut sp));
}

#[test]
fn pair_rejected_whole_when_one_read_fails() {
    let geo = FragmentGeomDesc {
        read1_desc: vec![GeomPiece::Barcode(GeomLen::FixedLen(4))],
        read2_desc: vec![
            GeomPiece::Umi(GeomLen::FixedLen(3)),
            GeomPiece::ReadSeq(GeomLen::Unbounded),
        ],
    };
    let mut geo_re = geo.as_regex().unwrap();
    let mut sp = SeqPair::new();
    assert!(!geo_re.parse_into(b"ACGT", b"AC", &mut sp));
    assert_eq!(sp.s1, "");
    assert_eq!(sp.s2, "");
    assert!(!geo_re.parse_into(b"ACG", b"ACGTT", &mut sp));
    assert_eq!(sp.s1, "");
    assert_eq!(sp.s2, "");
    assert!(geo_re.parse_into(b"ACGT", b"ACGTT", &mut sp));
    assert_eq!(sp.s2, "ACGTT");
}

#[test]
fn single_captured_piece_emits_whole_read() {
    let geo = FragmentGeomDesc {
        read1_desc: vec![GeomPiece::Barcode(GeomLen::FixedLen(4))],
        read2_desc: vec![GeomPiece::ReadSeq(GeomLen::Unbounded)],
    };
    let mut geo_re = geo.as_regex().unwrap();
    let mut sp = SeqPair::new();
    assert!(geo_re.parse_into(b"ACGTAAAA", b"TT", &mut sp));
    assert_eq!(sp.s1, "ACGTAAAA");
    assert_eq!(sp.s2, "TT");
}

#[test]
fn range_too_wide_is_refused() {
    let geo = FragmentGeomDesc {
        read1_desc: vec![GeomPiece::Barcode(GeomLen::FixedLen(4))],
        read2_desc: vec![
            GeomPiece::Discard(GeomLen::LenRange(2, 3)),
            GeomPiece::Umi(GeomLen::LenRange(2, 7)),
        ],
    };
    match geo.as_regex() {
        Err(CompileError::RangeTooWide(GeomPiece::Umi(GeomLen::LenRange(2, 7)))) => {}
        other => panic!("unexpected {:?}", other),
    }
    let ok_width = FragmentGeomDesc {
        read1_desc: vec![GeomPiece::Discard(GeomLen::LenRange(3, 7))],
        read2_desc: vec![GeomPiece::ReadSeq(GeomLen::Unbounded)],
    };
    assert!(ok_width.as_regex().is_ok());
    let reversed = FragmentGeomDesc {
        read1_desc: vec![GeomPiece::Barcode(GeomLen::LenRange(5, 4))],
        read2_desc: vec![],
    };
    assert!(matches!(
        reversed.as_regex(),
        Err(CompileError::RangeTooWide(GeomPiece::Barcode(GeomLen::LenRange(5, 4))))
    ));
}

#[test]
fn invalid_pattern_reports_pattern_text() {
    let geo = FragmentGeomDesc {
        read1_desc: vec![GeomPiece::ReadSeq(GeomLen::Unbounded)],
        read2_desc: vec![
            GeomPiece::Barcode(GeomLen::FixedLen(4)),
            GeomPiece::Fixed(String::from("(")),
        ],
    };
    match geo.as_regex() {
        Err(CompileError::InvalidPattern(p)) => assert_eq!(p, "^([ACGTN]{4})([ACGTN]*$"),
        other => panic!("unexpected {:?}", other),
    }
}

#[test]
fn matcher_patterns() {
    let geo_re = sciseq3_geometry().as_regex().unwrap();
    assert_eq!(
        geo_re.r1_re.as_str(),
        "^([ACGTN]{9,10})CAGAGC([ACGTN]{8})([ACGTN]{10})[ACGTN]*$"
    );
    assert_eq!(geo_re.r2_re.as_str(), "^([ACGTN]*)$");
    assert_eq!(geo_re.r1_cginfo.len(), 3);
    assert_eq!(geo_re.r2_cginfo.len(), 1);
}

#[test]
fn simplified_description_matches_padded_width() {
    let geo_re = sciseq3_geometry().as_regex().unwrap();
    assert_eq!(
        geo_re.get_simplified_description_string(),
        "1{b[11]u[8]b[10]}2{r:}"
    );
    let simple = geo_re.get_simplified_geo_desc();
    assert!(matches!(
        simple.read1_desc.as_slice(),
        [
            GeomPiece::Barcode(GeomLen::FixedLen(11)),
            GeomPiece::Umi(GeomLen::FixedLen(8)),
            GeomPiece::Barcode(GeomLen::FixedLen(10)),
        ]
    ));
    assert!(matches!(
        simple.read2_desc.as_slice(),
        [GeomPiece::ReadSeq(GeomLen::Unbounded)]
    ));
}

#[test]
fn simplified_description_omits_empty_read() {
    let geo = FragmentGeomDesc {
        read1_desc: vec![
            GeomPiece::Discard(GeomLen::FixedLen(3)),
            GeomPiece::Fixed(String::from("ACG")),
        ],
        read2_desc: vec![
            GeomPiece::Umi(GeomLen::LenRange(98, 100)),
            GeomPiece::ReadSeq(GeomLen::Unbounded),
        ],
    };
    let geo_re = geo.as_regex().unwrap();
    assert_eq!(geo_re.get_simplified_description_string(), "2{u[101]r:}");
}

#[test]
fn statistics_over_twenty_five_pairs() {
    let mut stats = XformStats::new();
    for i in 0..25 {
        stats.count_pair(i != 3 && i != 17);
    }
    assert_eq!(stats.total_fragments, 25);
    assert_eq!(stats.failed_parsing, 2);
    assert_eq!(stats.success_percentage_hundredths(), 9200);
    assert!(stats.to_string().contains("92.00"));
}

#[test]
fn statistics_report_text() {
    let stats = XformStats {
        total_fragments: 1234567,
        failed_parsing: 1234,
    };
    assert_eq!(
        stats.to_string(),
        "XformStats { \n    total fragments: 1,234,567,\n    fragments failing parsing: 1,234,\n    percentage successfully transformed fragments: 99.90,\n}"
    );
    let empty = XformStats::default();
    assert_eq!(empty.success_percentage_hundredths(), 10000);
    assert!(empty.to_string().contains("transformed fragments: 100.00,"));
    let third = XformStats {
        total_fragments: 3,
        failed_parsing: 1,
    };
    assert_eq!(third.success_percentage_hundredths(), 6667);
}

#[test]
fn seq_pair_clear_empties_both() {
    let mut sp = SeqPair::default();
    sp.s1.push_str("ACGT");
    sp.s2.push_str("TT");
    sp.clear();
    assert_eq!(sp.s1, "");
    assert_eq!(sp.s2, "");
}

#[test]
fn run_of_twenty_five_pairs_with_two_failures() {
    let good = "TNGCGCATTCAGAGCGCCACTTTCGGAAGATATTTT";
    let bad = "TGAACGCGTTTTTTTTTTTTTTTTTTTTTTTTTTTT";
    let mut geo_re = sciseq3_geometry().as_regex().unwrap();
    let mut sp = SeqPair::new();
    let mut stats = XformStats::new();
    let mut written = 0;
    for i in 0..25 {
        let r1 = if i == 5 || i == 20 { bad } else { good };
        let id = format!("read{}", i);
        let mut out1 = String::new();
        let mut out2 = String::new();
        let parsed = xform_read_pair(
            &mut geo_re,
            id.as_bytes(),
            r1.as_bytes(),
            id.as_bytes(),
            good.as_bytes(),
            &mut sp,
            &mut stats,
            &mut out1,
            &mut out2,
        );
        if parsed {
            written += 1;
            assert_eq!(out1, format!(">read{}\nTNGCGCATTACGCCACTTTCGGAAGATAT\n", i));
            assert_eq!(out2, format!(">read{}\n{}\n", i, good));
        } else {
            assert_eq!(out1, "");
            assert_eq!(out2, "");
        }
    }
    assert_eq!(written, 23);
    assert_eq!(stats.total_fragments, 25);
    assert_eq!(stats.failed_parsing, 2);
    assert_eq!(stats.success_percentage_hundredths(), 9200);
    assert!(stats
        .to_string()
        .contains("percentage successfully transformed fragments: 92.00,"));
}

#[test]
fn literal_with_group_is_refused() {
    let geo = FragmentGeomDesc {
        read1_desc: vec![
            GeomPiece::Barcode(GeomLen::FixedLen(4)),
            GeomPiece::Fixed(String::from("(A)")),
        ],
        read2_desc: vec![GeomPiece::ReadSeq(GeomLen::Unbounded)],
    };
    match geo.as_regex() {
        Err(CompileError::InvalidPattern(p)) => assert_eq!(p, "^([ACGTN]{4})(A)[ACGTN]*$"),
        other => panic!("unexpected {:?}", other),
    }
}

#[test]
fn compiled_matcher_is_well_formed() {
    let mut geo_re = sciseq3_geometry().as_regex().unwrap();
    assert!(geo_re.is_wf());
    assert_eq!(geo_re.r1_re.captures_len(), geo_re.r1_cginfo.len() + 1);
    geo_re.r1_cginfo.push(GeomPiece::Discard(GeomLen::FixedLen(3)));
    assert!(!geo_re.is_wf());
}

#[test]
fn foreign_capture_locations_are_replaced() {
    let mut geo_re = sciseq3_geometry().as_regex().unwrap();
    geo_re.r1_clocs = geo_re.r2_re.capture_locations();
    let mut sp = SeqPair::new();
    let tr = "TNGCGCATTCAGAGCGCCACTTTCGGAAGATATTTT";
    assert!(geo_re.parse_into(tr.as_bytes(), tr.as_bytes(), &mut sp));
    assert_eq!(sp.s1, "TNGCGCATTACGCCACTTTCGGAAGATAT");
}
