use gte::Error;
use gte::ExonFeatureKind;
use gte::ModelError;
use gte::Strand;
use gte::TBuilder;
use gte::Transcript;

fn feature_kinds(t: &Transcript) -> Vec<(String, u64, u64)> {
    let mut out = Vec::new();
    for exon in t.exons().iter() {
        for f in exon.features().iter() {
            let name = match f.kind() {
                ExonFeatureKind::UTR => "UTR",
                ExonFeatureKind::UTR5 => "UTR5",
                ExonFeatureKind::UTR3 => "UTR3",
                ExonFeatureKind::CDS { .. } => "CDS",
                ExonFeatureKind::StartCodon { .. } => "StartCodon",
                ExonFeatureKind::StopCodon { .. } => "StopCodon",
                ExonFeatureKind::Any(_) => "Any",
            };
            out.push((name.to_owned(), f.start(), f.end()));
        }
    }
    out
}

fn sum_kind_span(t: &Transcript, kind: &str) -> u64 {
    feature_kinds(t)
        .iter()
        .filter(|(k, _, _)| k == kind)
        .map(|(_, s, e)| e - s)
        .sum()
}

#[test]
fn no_cds_single_transcript() {
    // Three exons, no coding region: no sub-features at all.
    let trx = TBuilder::new("chr1", 11873, 14409)
        .strand_char('+')
        .id("NR_046018".to_owned())
        .coords(vec![(11873, 12227), (12612, 12721), (13220, 14409)], None)
        .coding_incl_stop(true)
        .build()
        .expect("a transcript");
    assert_eq!(trx.exons().len(), 3);
    assert_eq!(trx.exons()[0].start(), 11873);
    assert_eq!(trx.exons()[0].end(), 12227);
    assert_eq!(trx.exons()[1].start(), 12612);
    assert_eq!(trx.exons()[2].end(), 14409);
    for exon in trx.exons().iter() {
        assert_eq!(exon.features().len(), 0);
    }
    assert_eq!(trx.coding_coord(true), None);
    assert_eq!(trx.coding_coord(false), None);
}

#[test]
fn forward_cds_multi_exon_incl_stop() {
    // The coding coordinate includes the stop codon; normalization moves the
    // coding end from 2562868 down to 2562865, and the stop codon occupies
    // the three stripped bases.
    let trx = TBuilder::new("chr1", 2556364, 2565622)
        .strand(Strand::Forward)
        .coords(
            vec![
                (2556364, 2556733),
                (2557725, 2557834),
                (2558342, 2558468),
                (2559822, 2559978),
                (2560623, 2560714),
                (2562864, 2562896),
                (2563147, 2565622),
            ],
            Some((2556664, 2562868)),
        )
        .gene_id("TNFRSF14".to_owned())
        .id("NM_001297605".to_owned())
        .coding_incl_stop(true)
        .build()
        .expect("a transcript");

    assert_eq!(sum_kind_span(&trx, "StartCodon"), 3);
    assert_eq!(sum_kind_span(&trx, "StopCodon"), 3);

    let fks = feature_kinds(&trx);
    assert!(fks.contains(&("StartCodon".to_owned(), 2556664, 2556667)));
    assert!(fks.contains(&("StopCodon".to_owned(), 2562865, 2562868)));
    assert!(fks.contains(&("UTR5".to_owned(), 2556364, 2556664)));
    assert!(fks.contains(&("UTR3".to_owned(), 2562868, 2562896)));

    // The coding coordinate round-trips through the stored sub-features.
    assert_eq!(trx.coding_coord(true), Some((2556664, 2562868)));
    assert_eq!(trx.coding_coord(false), Some((2556664, 2562865)));
}

#[test]
fn reverse_cds_split_stop_codon() {
    // Reverse strand: normalization moves the coding start up by three
    // exonic bases, and the stop codon occupies the bases below it.
    let trx = TBuilder::new("chr1", 34850361, 34859045)
        .strand(Strand::Reverse)
        .coords(
            vec![(34850361, 34855982), (34856555, 34856739), (34858839, 34859045)],
            Some((34855698, 34855977)),
        )
        .gene_id("SMIM12".to_owned())
        .id("NM_001164824".to_owned())
        .coding_incl_stop(true)
        .build()
        .expect("a transcript");

    let fks = feature_kinds(&trx);
    assert!(fks.contains(&("StopCodon".to_owned(), 34855698, 34855701)));
    assert!(fks.contains(&("StartCodon".to_owned(), 34855974, 34855977)));
    assert_eq!(sum_kind_span(&trx, "StartCodon"), 3);
    assert_eq!(sum_kind_span(&trx, "StopCodon"), 3);

    // Reverse-strand UTR labels: 3'UTR below the coding region, 5'UTR above.
    assert!(fks.contains(&("UTR3".to_owned(), 34850361, 34855698)));
    assert!(fks.contains(&("UTR5".to_owned(), 34855977, 34855982)));
    assert!(fks.contains(&("UTR5".to_owned(), 34856555, 34856739)));
    assert!(fks.contains(&("UTR5".to_owned(), 34858839, 34859045)));

    assert_eq!(trx.coding_coord(true), Some((34855698, 34855977)));
    assert_eq!(trx.coding_coord(false), Some((34855701, 34855977)));
}

#[test]
fn coding_start_in_intron() {
    let res = TBuilder::new("chrT", 100, 400)
        .strand(Strand::Forward)
        .coords(vec![(100, 200), (300, 400)], Some((250, 350)))
        .coding_incl_stop(false)
        .build();
    assert!(matches!(
        res.unwrap_err(),
        Error::Model(ModelError::CodingInIntron(_))
    ));
}

#[test]
fn coding_region_too_small() {
    let res = TBuilder::new("chrT", 100, 200)
        .strand(Strand::Forward)
        .coords(vec![(100, 200)], Some((150, 152)))
        .coding_incl_stop(false)
        .build();
    assert!(matches!(
        res.unwrap_err(),
        Error::Model(ModelError::CodingTooSmall(_))
    ));
}

#[test]
fn unmatched_exons() {
    let res = TBuilder::new("chrT", 100, 500)
        .strand(Strand::Forward)
        .coords(vec![(100, 200), (300, 450)], None)
        .build();
    assert!(matches!(
        res.unwrap_err(),
        Error::Model(ModelError::UnmatchedExons(_))
    ));
}

#[test]
fn invalid_exon_interval() {
    let res = TBuilder::new("chrT", 100, 500)
        .strand(Strand::Forward)
        .coords(vec![(100, 200), (450, 300)], None)
        .build();
    assert!(matches!(
        res.unwrap_err(),
        Error::Model(ModelError::InvalidExonInterval(_))
    ));
}

#[test]
fn unspecified_exons() {
    let res = TBuilder::new("chrT", 100, 500)
        .strand(Strand::Forward)
        .coords(vec![], Some((150, 300)))
        .build();
    assert!(matches!(
        res.unwrap_err(),
        Error::Model(ModelError::UnspecifiedExons(_))
    ));
}

#[test]
fn coding_too_large_forward() {
    // No room for a stop codon beyond the coding end.
    let res = TBuilder::new("chrT", 100, 200)
        .strand(Strand::Forward)
        .coords(vec![(100, 200)], Some((150, 198)))
        .coding_incl_stop(false)
        .build();
    assert!(matches!(
        res.unwrap_err(),
        Error::Model(ModelError::CodingTooLarge(_))
    ));
}

#[test]
fn coding_not_fully_enveloped() {
    let res = TBuilder::new("chrT", 100, 200)
        .strand(Strand::Forward)
        .coords(vec![(100, 200)], Some((50, 150)))
        .coding_incl_stop(false)
        .build();
    assert!(matches!(
        res.unwrap_err(),
        Error::Model(ModelError::CodingNotFullyEnveloped(_))
    ));
}

#[test]
fn invalid_coding_interval_after_normalization() {
    // Stripping the stop codon from a reverse-strand coding region of three
    // bases leaves an empty coding interval.
    let res = TBuilder::new("chrT", 100, 200)
        .strand(Strand::Reverse)
        .coords(vec![(100, 200)], Some((150, 153)))
        .coding_incl_stop(true)
        .build();
    assert!(matches!(
        res.unwrap_err(),
        Error::Model(ModelError::InvalidCodingInterval(_))
    ));
}

#[test]
fn unknown_strand_keeps_coding_unchanged() {
    // An unknown strand never strips stop-codon bases and labels both
    // untranslated sides plainly.
    let trx = TBuilder::new("chrT", 100, 200)
        .strand(Strand::Unknown)
        .coords(vec![(100, 200)], Some((120, 180)))
        .coding_incl_stop(true)
        .build()
        .expect("a transcript");
    let fks = feature_kinds(&trx);
    assert_eq!(
        fks,
        vec![
            ("UTR".to_owned(), 100, 120),
            ("CDS".to_owned(), 120, 180),
            ("UTR".to_owned(), 180, 200),
        ]
    );
    assert_eq!(trx.coding_coord(true), Some((120, 180)));
    assert_eq!(trx.coding_coord(false), None);
}

#[test]
fn exons_sorted_by_start() {
    let trx = TBuilder::new("chrT", 100, 500)
        .strand(Strand::Forward)
        .coords(vec![(300, 500), (100, 200)], None)
        .build()
        .expect("a transcript");
    assert_eq!(trx.exons()[0].start(), 100);
    assert_eq!(trx.exons()[1].start(), 300);
}

#[test]
fn frames_propagate_forward() {
    // Forward strand, coding [110, 140) with the stop codon beyond it: the
    // single CDS carries frame 0, split across nothing.
    let trx = TBuilder::new("chrT", 100, 200)
        .strand(Strand::Forward)
        .coords(vec![(100, 200)], Some((110, 140)))
        .coding_incl_stop(false)
        .build()
        .expect("a transcript");
    for exon in trx.exons().iter() {
        for f in exon.features().iter() {
            match f.kind() {
                ExonFeatureKind::StartCodon { frame } => assert_eq!(*frame, Some(0)),
                ExonFeatureKind::CDS { frame } => assert_eq!(*frame, Some(0)),
                ExonFeatureKind::StopCodon { frame } => assert_eq!(*frame, Some(0)),
                _ => {},
            }
        }
    }
}

#[test]
fn frames_split_codon_reverse() {
    // Reverse strand with the start codon split 2+1 across two exons: the
    // transcription-wise first piece carries frame 0, the next the number of
    // bases still to discard.
    let trx = TBuilder::new("chrT", 100, 300)
        .strand(Strand::Reverse)
        .coords(vec![(100, 201), (230, 300)], Some((110, 232)))
        .coding_incl_stop(true)
        .build()
        .expect("a transcript");
    let mut start_frames = Vec::new();
    for exon in trx.exons().iter() {
        for f in exon.features().iter() {
            if let ExonFeatureKind::StartCodon { frame } = f.kind() {
                start_frames.push((f.start(), f.end(), *frame));
            }
        }
    }
    // Transcription on the reverse strand runs from high to low coordinates.
    assert_eq!(start_frames.len(), 2);
    assert_eq!(start_frames[1].2, Some(0));
    assert_eq!(sum_kind_span(&trx, "StartCodon"), 3);
}

#[test]
fn set_id_propagates_to_exons() {
    let mut trx = TBuilder::new("chrT", 100, 200)
        .strand(Strand::Forward)
        .coords(vec![(100, 200)], None)
        .id("old".to_owned())
        .build()
        .expect("a transcript");
    trx.set_id(Some("new".to_owned()));
    assert_eq!(trx.id(), Some("new"));
    for exon in trx.exons().iter() {
        assert_eq!(exon.transcript_id(), Some("new"));
    }
}
