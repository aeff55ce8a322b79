use multimap::MultiMap;

use gte::Error;
use gte::ExonFeature;
use gte::ExonFeatureKind;
use gte::ExonFeatureKind::UTR5;
use gte::Interval;
use gte::ModelError;
use gte::ModelError::InvalidInterval;
use gte::ModelError::InvalidStrandChar;
use gte::EBuilder;
use gte::Strand;

fn make_feat(start: u64, end: u64, kind: ExonFeatureKind) -> ExonFeature {
    ExonFeature::new(Interval::new(start, end).unwrap(), kind)
}

#[test]
fn ebuilder_basic() {
    let mut attribs = MultiMap::new();
    attribs.insert("key1".to_owned(), "value1".to_owned());
    attribs.insert("key2".to_owned(), "value2".to_owned());
    let exonb = EBuilder::new("chrT", 10, 20)
        .strand(Strand::Forward)
        .id("ex1.1".to_owned())
        .attributes(attribs)
        .feature(make_feat(10, 15, UTR5))
        .build();
    assert!(exonb.is_ok());
    let exon = exonb.unwrap();
    assert_eq!(exon.seq_name(), "chrT");
    assert_eq!(exon.strand(), &Strand::Forward);
    assert_eq!(exon.id(), Some("ex1.1"));
    assert_eq!(exon.attributes().get("key1"), Some(&"value1".to_owned()));
    assert_eq!(exon.attributes().get("key2"), Some(&"value2".to_owned()));
    assert_eq!(exon.attributes().len(), 2);
    assert_eq!(exon.features().to_vec(), vec![make_feat(10, 15, UTR5)]);
}

#[test]
fn ebuilder_alt1() {
    // An empty interval is rejected: a valid interval needs start < end.
    let exonb = EBuilder::new("chrO", 10, 10)
        .strand_char('-')
        .strand(Strand::Reverse)
        .attribute("name".to_owned(), "ex1".to_owned())
        .build();
    assert!(exonb.is_err());
    assert!(matches!(exonb.unwrap_err(), Error::Model(InvalidInterval)));
}

#[test]
fn ebuilder_interval_invalid() {
    let exonb = EBuilder::new("chrE", 20, 10).build();
    assert!(exonb.is_err());
    assert!(matches!(exonb.unwrap_err(), Error::Model(InvalidInterval)));
}

#[test]
fn ebuilder_strand_unspecified() {
    let exonb = EBuilder::new("chrT", 20, 30).build();
    assert!(exonb.is_err());
    assert!(matches!(
        exonb.unwrap_err(),
        Error::Model(ModelError::UnspecifiedStrand)
    ));
}

#[test]
fn ebuilder_strand_char_unexpected() {
    let exonb = EBuilder::new("chrE", 10, 20).strand_char('w').build();
    assert!(exonb.is_err());
    assert!(matches!(
        exonb.unwrap_err(),
        Error::Model(InvalidStrandChar('w'))
    ));
}

#[test]
fn ebuilder_strand_char_conflicting() {
    let exonb = EBuilder::new("chrE", 10, 20)
        .strand_char('-')
        .strand(Strand::Reverse)
        .build();
    assert!(exonb.is_ok());
    let exon = exonb.unwrap();
    assert_eq!(exon.strand(), &Strand::Reverse);
}

#[test]
fn ebuilder_strand_char_truly_conflicting() {
    let exonb = EBuilder::new("chrE", 10, 20)
        .strand_char('-')
        .strand(Strand::Forward)
        .build();
    assert!(exonb.is_err());
    assert!(matches!(
        exonb.unwrap_err(),
        Error::Model(ModelError::ConflictingStrand)
    ));
}

#[test]
fn strand_char_parsing() {
    assert_eq!(Strand::from_char('+'), Ok(Strand::Forward));
    assert_eq!(Strand::from_char('f'), Ok(Strand::Forward));
    assert_eq!(Strand::from_char('F'), Ok(Strand::Forward));
    assert_eq!(Strand::from_char('-'), Ok(Strand::Reverse));
    assert_eq!(Strand::from_char('r'), Ok(Strand::Reverse));
    assert_eq!(Strand::from_char('R'), Ok(Strand::Reverse));
    assert_eq!(Strand::from_char('.'), Ok(Strand::Unknown));
    assert_eq!(Strand::from_char('?'), Ok(Strand::Unknown));
    assert_eq!(
        Strand::from_char('x'),
        Err(ModelError::InvalidStrandChar('x'))
    );
}

#[test]
fn exon_set_features_recomputes_interval() {
    let mut exon = EBuilder::new("chrT", 10, 20)
        .strand(Strand::Forward)
        .build()
        .unwrap();
    let res = exon.set_features(vec![make_feat(5, 12, UTR5), make_feat(12, 30, UTR5)]);
    assert!(res.is_ok());
    assert_eq!(res.unwrap().len(), 0);
    assert_eq!(exon.start(), 5);
    assert_eq!(exon.end(), 30);
    assert_eq!(exon.features().len(), 2);
}

#[test]
fn exon_set_features_empty_keeps_interval() {
    let mut exon = EBuilder::new("chrT", 10, 20)
        .strand(Strand::Forward)
        .feature(make_feat(10, 15, UTR5))
        .build()
        .unwrap();
    let old = exon.set_features(vec![]).unwrap();
    assert_eq!(old, vec![make_feat(10, 15, UTR5)]);
    assert_eq!(exon.start(), 10);
    assert_eq!(exon.end(), 20);
    assert_eq!(exon.features().len(), 0);
}

#[test]
fn exon_span_and_ids() {
    let mut exon = EBuilder::new("chrT", 100, 150)
        .strand_char('+')
        .transcript_id("trx1".to_owned())
        .gene_id("gx1".to_owned())
        .build()
        .unwrap();
    assert_eq!(exon.span(), 50);
    assert_eq!(exon.transcript_id(), Some("trx1"));
    assert_eq!(exon.gene_id(), Some("gx1"));
    exon.set_transcript_id(None);
    exon.set_gene_id(Some("gx2".to_owned()));
    assert_eq!(exon.transcript_id(), None);
    assert_eq!(exon.gene_id(), Some("gx2"));
}
