use vstd::prelude::*;
use crate::security::element_security;

verus! {

/// Element identifier of the SSID element.
pub const SSID_ID: u8 = 0;

/// Element identifier of the Robust Security Network element.
pub const RSN_ID: u8 = 48;

/// Element identifier of vendor-specific elements.
pub const VENDOR_ID: u8 = 221;

/// An information element recognised in a scan result's element blob.
#[derive(Debug, Clone, PartialEq, Eq)]
pub enum InformationElement {
    /// The network name, as the octets that the element carries.
    Ssid(Vec<u8>),
    /// The suite types of the AKM suites that an RSN element lists, in order.
    RobustSecurityNetwork(Vec<u8>),
    /// The legacy WPA element: vendor-specific, OUI 00-50-F2, type 1.
    VendorWpa,
}

/// Mathematical form of an [`InformationElement`].
pub enum ElementView {
    Ssid(Seq<u8>),
    Rsn(Seq<u8>),
    VendorWpa,
}

impl View for InformationElement {
    type V = ElementView;

    open spec fn view(&self) -> ElementView {
        match self {
            InformationElement::Ssid(v) => ElementView::Ssid(v@),
            InformationElement::RobustSecurityNetwork(a) => ElementView::Rsn(a@),
            InformationElement::VendorWpa => ElementView::VendorWpa,
        }
    }
}

pub open spec fn views(s: Seq<InformationElement>) -> Seq<ElementView> {
    s.map_values(|e: InformationElement| e@)
}

/// A little-endian 16-bit field.
pub open spec fn le16(lo: u8, hi: u8) -> int {
    lo as int + 256 * hi as int
}

/// The AKM suite types listed by an RSN element body laid out as version (2),
/// group cipher suite (4), pairwise count (2), pairwise suites (4 each),
/// AKM count (2), AKM suites (4 each), anything after that ignored. Each
/// suite's type is its last octet. A body too short for its counts lists none.
pub open spec fn rsn_akms(v: Seq<u8>) -> Seq<u8> {
    if v.len() < 8 {
        seq![]
    } else {
        let a = 8 + 4 * le16(v[6], v[7]);
        if a + 2 > v.len() {
            seq![]
        } else {
            let count = le16(v[a], v[a + 1]);
            let s = a + 2;
            if s + 4 * count > v.len() {
                seq![]
            } else {
                Seq::new(count as nat, |k: int| v[s + 4 * k + 3])
            }
        }
    }
}

/// Whether a vendor-specific element body is the legacy WPA element.
pub open spec fn is_wpa_vendor(v: Seq<u8>) -> bool {
    v.len() >= 4 && v[0] == 0x00 && v[1] == 0x50 && v[2] == 0xF2 && v[3] == 0x01
}

/// The element with identifier `id` and body `v`, if it is one that is recognised.
pub open spec fn decode_element(id: u8, v: Seq<u8>) -> Option<ElementView> {
    if id == SSID_ID {
        Some(ElementView::Ssid(v))
    } else if id == RSN_ID {
        Some(ElementView::Rsn(rsn_akms(v)))
    } else if id == VENDOR_ID && is_wpa_vendor(v) {
        Some(ElementView::VendorWpa)
    } else {
        None
    }
}

/// The elements of a blob of `(id, length, body)` triples, walked from the
/// front. The walk ends at the first header or body that the blob cuts short.
pub open spec fn parse_spec(b: Seq<u8>) -> Seq<ElementView>
    decreases b.len(),
{
    if b.len() < 2 {
        seq![]
    } else {
        let end = 2 + b[1] as int;
        if end > b.len() {
            seq![]
        } else {
            let rest = parse_spec(b.subrange(end, b.len() as int));
            match decode_element(b[0], b.subrange(2, end)) {
                Some(e) => seq![e] + rest,
                None => rest,
            }
        }
    }
}

proof fn lemma_parse_step(b: Seq<u8>)
    requires
        b.len() >= 2,
        2 + b[1] as int <= b.len(),
    ensures
        ({
            let end = 2 + b[1] as int;
            let rest = parse_spec(b.subrange(end, b.len() as int));
            parse_spec(b) == match decode_element(b[0], b.subrange(2, end)) {
                Some(e) => seq![e] + rest,
                None => rest,
            }
        }),
{
}

/// Copies `b[from..to]`.
fn copy_range(b: &Vec<u8>, from: usize, to: usize) -> (r: Vec<u8>)
    requires
        from <= to <= b.len(),
    ensures
        r@ == b@.subrange(from as int, to as int),
{
    let mut r: Vec<u8> = Vec::new();
    let mut i: usize = from;
    while i < to
        invariant
            from <= i <= to <= b.len(),
            r@ == b@.subrange(from as int, i as int),
        decreases to - i,
    {
        r.push(b[i]);
        i = i + 1;
        assert(r@ =~= b@.subrange(from as int, i as int));
    }
    r
}

/// Reads the AKM suite types of an RSN element body; none when the body is
/// too short for the counts it declares.
pub fn rsn_suite_types(v: &Vec<u8>) -> (r: Vec<u8>)
    ensures
        r@ == rsn_akms(v@),
{
    if v.len() < 8 {
        return Vec::new();
    }
    let a: usize = 8 + 4 * (v[6] as usize + 256 * (v[7] as usize));
    if a + 2 > v.len() {
        return Vec::new();
    }
    let count: usize = v[a] as usize + 256 * (v[a + 1] as usize);
    let s: usize = a + 2;
    if s + 4 * count > v.len() {
        return Vec::new();
    }
    let mut r: Vec<u8> = Vec::new();
    let mut k: usize = 0;
    while k < count
        invariant
            k <= count,
            s + 4 * count <= v.len(),
            r@ == Seq::new(k as nat, |j: int| v@[s + 4 * j + 3]),
        decreases count - k,
    {
        r.push(v[s + 4 * k + 3]);
        k = k + 1;
        assert(r@ =~= Seq::new(k as nat, |j: int| v@[s + 4 * j + 3]));
    }
    assert(r@ =~= rsn_akms(v@));
    r
}

/// The AKM suites of an RSN element body, each as OUI 00-0F-AC and its type.
pub open spec fn akm_suites_bytes(akms: Seq<u8>) -> Seq<u8>
    decreases akms.len(),
{
    if akms.len() == 0 {
        seq![]
    } else {
        akm_suites_bytes(akms.drop_last()) + seq![0x00u8, 0x0Fu8, 0xACu8, akms.last()]
    }
}

/// `n` CCMP cipher suites (OUI 00-0F-AC, type 4).
pub open spec fn ccmp_suites(n: nat) -> Seq<u8>
    decreases n,
{
    if n == 0 {
        seq![]
    } else {
        ccmp_suites((n - 1) as nat) + seq![0x00u8, 0x0Fu8, 0xACu8, 0x04u8]
    }
}

/// An RSN element body: version 1, group cipher CCMP, `pairwise` CCMP
/// pairwise suites, then the AKM suites.
pub open spec fn rsn_body(pairwise: nat, akms: Seq<u8>) -> Seq<u8> {
    seq![1u8, 0u8, 0x00u8, 0x0Fu8, 0xACu8, 0x04u8, (pairwise % 256) as u8, (pairwise / 256) as u8]
        + ccmp_suites(pairwise) + seq![(akms.len() % 256) as u8, (akms.len() / 256) as u8]
        + akm_suites_bytes(akms)
}

/// The bytes of one element: identifier, length, body; an RSN element is
/// written with `pairwise` pairwise suites.
pub open spec fn encode_element(e: ElementView, pairwise: nat) -> Seq<u8> {
    match e {
        ElementView::Ssid(v) => seq![SSID_ID, v.len() as u8] + v,
        ElementView::Rsn(akms) => seq![RSN_ID, rsn_body(pairwise, akms).len() as u8] + rsn_body(
            pairwise,
            akms,
        ),
        ElementView::VendorWpa => seq![VENDOR_ID, 4u8, 0x00u8, 0x50u8, 0xF2u8, 0x01u8],
    }
}

/// The bytes of a sequence of elements, one after the other.
pub open spec fn encode_all(es: Seq<ElementView>, pairwise: nat) -> Seq<u8>
    decreases es.len(),
{
    if es.len() == 0 {
        seq![]
    } else {
        encode_element(es[0], pairwise) + encode_all(es.drop_first(), pairwise)
    }
}

/// Whether an element, written with `pairwise` pairwise suites, fits in the
/// one-octet length of its header.
pub open spec fn encodable(e: ElementView, pairwise: nat) -> bool {
    match e {
        ElementView::Ssid(v) => v.len() <= 255,
        ElementView::Rsn(akms) => 10 + 4 * pairwise + 4 * akms.len() <= 255,
        ElementView::VendorWpa => true,
    }
}

/// Whether a blob is made of whole elements only.
pub open spec fn whole_elements(b: Seq<u8>) -> bool
    decreases b.len(),
{
    if b.len() == 0 {
        true
    } else if b.len() < 2 || 2 + b[1] as int > b.len() {
        false
    } else {
        whole_elements(b.subrange(2 + b[1] as int, b.len() as int))
    }
}

/// Whether a blob is one element cut short: a partial header, or a header
/// whose length runs past the end.
pub open spec fn cut_short(t: Seq<u8>) -> bool {
    t.len() > 0 && (t.len() < 2 || 2 + t[1] as int > t.len())
}

proof fn lemma_akm_suites_bytes(akms: Seq<u8>)
    ensures
        akm_suites_bytes(akms).len() == 4 * akms.len(),
        forall|k: int| 0 <= k < akms.len() ==> #[trigger] akm_suites_bytes(akms)[4 * k + 3] == akms[k],
    decreases akms.len(),
{
    if akms.len() > 0 {
        lemma_akm_suites_bytes(akms.drop_last());
        let p = akm_suites_bytes(akms.drop_last());
        assert forall|k: int| 0 <= k < akms.len() implies #[trigger] akm_suites_bytes(akms)[4 * k + 3] == akms[k] by {
            if k < akms.len() - 1 {
                assert(akms.drop_last()[k] == akms[k]);
                assert(p[4 * k + 3] == akms[k]);
            }
        }
    }
}

proof fn lemma_ccmp_suites(n: nat)
    ensures
        ccmp_suites(n).len() == 4 * n,
    decreases n,
{
    if n > 0 {
        lemma_ccmp_suites((n - 1) as nat);
    }
}

proof fn lemma_rsn_round_trip(pairwise: nat, akms: Seq<u8>)
    requires
        10 + 4 * pairwise + 4 * akms.len() <= 255,
    ensures
        rsn_akms(rsn_body(pairwise, akms)) == akms,
        rsn_body(pairwise, akms).len() == 10 + 4 * pairwise + 4 * akms.len(),
{
    lemma_akm_suites_bytes(akms);
    lemma_ccmp_suites(pairwise);
    let v = rsn_body(pairwise, akms);
    let k = akms.len();
    let head = seq![1u8, 0u8, 0x00u8, 0x0Fu8, 0xACu8, 0x04u8, (pairwise % 256) as u8, (pairwise / 256) as u8];
    let count = seq![(k % 256) as u8, (k / 256) as u8];
    let a: int = 8 + 4 * pairwise as int;
    assert(v == head + ccmp_suites(pairwise) + count + akm_suites_bytes(akms));
    assert(v[6] == (pairwise % 256) as u8 && v[7] == (pairwise / 256) as u8);
    assert(le16(v[6], v[7]) == pairwise);
    assert(v[a] == (k % 256) as u8 && v[a + 1] == (k / 256) as u8);
    assert(le16(v[a], v[a + 1]) == k);
    assert forall|j: int| 0 <= j < k implies v[a + 2 + 4 * j + 3] == akms[j] by {
        assert(v[a + 2 + 4 * j + 3] == akm_suites_bytes(akms)[4 * j + 3]);
    }
    assert(rsn_akms(v) =~= akms);
}

proof fn lemma_parse_encode_one(e: ElementView, pairwise: nat, rest: Seq<u8>)
    requires
        encodable(e, pairwise),
    ensures
        parse_spec(encode_element(e, pairwise) + rest) == seq![e] + parse_spec(rest),
{
    let b = encode_element(e, pairwise) + rest;
    let h = encode_element(e, pairwise);
    match e {
        ElementView::Ssid(v) => {
            assert(h.len() == 2 + v.len());
        },
        ElementView::Rsn(akms) => {
            lemma_rsn_round_trip(pairwise, akms);
            assert(h.len() == 2 + rsn_body(pairwise, akms).len());
        },
        ElementView::VendorWpa => {
            assert(h.len() == 6);
        },
    }
    assert(b[1] as int + 2 == h.len());
    lemma_parse_step(b);
    assert(b.subrange(h.len() as int, b.len() as int) =~= rest);
    assert(b.subrange(2, h.len() as int) =~= h.subrange(2, h.len() as int));
    match e {
        ElementView::Ssid(v) => {
            assert(h.subrange(2, h.len() as int) =~= v);
        },
        ElementView::Rsn(akms) => {
            assert(h.subrange(2, h.len() as int) =~= rsn_body(pairwise, akms));
        },
        ElementView::VendorWpa => {
            assert(h.subrange(2, h.len() as int) =~= seq![0x00u8, 0x50u8, 0xF2u8, 0x01u8]);
        },
    }
}

proof fn lemma_parse_encode_all(es: Seq<ElementView>, pairwise: nat)
    requires
        forall|i: int| 0 <= i < es.len() ==> encodable(#[trigger] es[i], pairwise),
    ensures
        parse_spec(encode_all(es, pairwise)) == es,
    decreases es.len(),
{
    if es.len() > 0 {
        let rest = es.drop_first();
        assert forall|i: int| 0 <= i < rest.len() implies encodable(#[trigger] rest[i], pairwise) by {
            assert(rest[i] == es[i + 1]);
        }
        lemma_parse_encode_all(rest, pairwise);
        lemma_parse_encode_one(es[0], pairwise, encode_all(rest, pairwise));
        assert(seq![es[0]] + rest =~= es);
    }
}

proof fn lemma_parsed_encodable(b: Seq<u8>)
    ensures
        forall|i: int| 0 <= i < parse_spec(b).len() ==> encodable(#[trigger] parse_spec(b)[i], 0),
    decreases b.len(),
{
    if b.len() >= 2 && 2 + b[1] as int <= b.len() {
        let end = 2 + b[1] as int;
        let tail = b.subrange(end, b.len() as int);
        lemma_parsed_encodable(tail);
        lemma_parse_step(b);
        let v = b.subrange(2, end);
        match decode_element(b[0], v) {
            Some(e) => {
                match e {
                    ElementView::Rsn(akms) => {
                        assert(akms == rsn_akms(v));
                        assert(10 + 4 * akms.len() <= 255);
                    },
                    _ => {},
                }
                assert(encodable(e, 0));
                assert forall|i: int| 0 <= i < parse_spec(b).len() implies encodable(#[trigger] parse_spec(b)[i], 0) by {
                    if i > 0 {
                        assert(parse_spec(b)[i] == parse_spec(tail)[i - 1]);
                    }
                }
            },
            None => {},
        }
    }
}

/// Writing the elements that a blob decodes to back out as bytes (RSN
/// elements without pairwise suites), and decoding those, gives the same
/// elements again.
pub proof fn lemma_parse_reencode(blob: Seq<u8>)
    ensures
        parse_spec(encode_all(parse_spec(blob), 0)) == parse_spec(blob),
{
    lemma_parsed_encodable(blob);
    lemma_parse_encode_all(parse_spec(blob), 0);
}

/// The same with RSN elements written with `pairwise` CCMP pairwise suites,
/// wherever that leaves every element short enough for its length octet;
/// the networks classify the same. (With one pairwise suite, an RSN element
/// that lists 61 AKM suites and no pairwise suite does not fit again.)
pub proof fn lemma_parse_reencode_pairwise(blob: Seq<u8>, pairwise: nat)
    requires
        forall|i: int| 0 <= i < parse_spec(blob).len() ==> encodable(#[trigger] parse_spec(blob)[i], pairwise),
    ensures
        parse_spec(encode_all(parse_spec(blob), pairwise)) == parse_spec(blob),
        element_security(parse_spec(encode_all(parse_spec(blob), pairwise))) == element_security(parse_spec(blob)),
{
    lemma_parse_encode_all(parse_spec(blob), pairwise);
}

/// A blob of whole elements followed by one element that is cut short
/// decodes to the elements of the whole part, without error.
pub proof fn lemma_parse_truncated(whole: Seq<u8>, partial: Seq<u8>)
    requires
        whole_elements(whole),
        cut_short(partial),
    ensures
        parse_spec(whole + partial) == parse_spec(whole),
    decreases whole.len(),
{
    let b = whole + partial;
    if whole.len() == 0 {
        assert(b =~= partial);
    } else {
        let end = 2 + whole[1] as int;
        let tail = whole.subrange(end, whole.len() as int);
        lemma_parse_truncated(tail, partial);
        assert(b[1] == whole[1] && b[0] == whole[0]);
        lemma_parse_step(b);
        lemma_parse_step(whole);
        assert(b.subrange(2, end) =~= whole.subrange(2, end));
        assert(b.subrange(end, b.len() as int) =~= tail + partial);
    }
}

/// Decodes the information elements of a blob: SSID, RSN and legacy WPA
/// elements are kept, others skipped. A truncated trailing element ends the
/// walk; everything before it is returned.
pub fn parse_all(blob: &Vec<u8>) -> (r: Vec<InformationElement>)
    ensures
        views(r@) == parse_spec(blob@),
{
    let n = blob.len();
    let mut out: Vec<InformationElement> = Vec::new();
    let mut i: usize = 0;
    assert(blob@.subrange(0, n as int) =~= blob@);
    assert(views(out@) + parse_spec(blob@) =~= parse_spec(blob@));
    loop
        invariant
            n == blob.len(),
            i <= n,
            views(out@) + parse_spec(blob@.subrange(i as int, n as int)) == parse_spec(blob@),
        ensures
            views(out@) == parse_spec(blob@),
        decreases n - i,
    {
        let ghost rest = blob@.subrange(i as int, n as int);
        if n - i < 2 {
            assert(parse_spec(rest) == Seq::<ElementView>::empty());
            assert(views(out@) =~= views(out@) + Seq::<ElementView>::empty());
            break;
        }
        let id = blob[i];
        let len = blob[i + 1] as usize;
        if n - i - 2 < len {
            assert(parse_spec(rest) == Seq::<ElementView>::empty());
            assert(views(out@) =~= views(out@) + Seq::<ElementView>::empty());
            break;
        }
        let end = i + 2 + len;
        let body = copy_range(blob, i + 2, end);
        proof {
            lemma_parse_step(rest);
            assert(rest.subrange(2, 2 + len) =~= body@);
            assert(rest.subrange(2 + len, rest.len() as int) =~= blob@.subrange(end as int, n as int));
        }
        let ghost old_out = out@;
        if id == SSID_ID {
            out.push(InformationElement::Ssid(body));
        } else if id == RSN_ID {
            let akms = rsn_suite_types(&body);
            out.push(InformationElement::RobustSecurityNetwork(akms));
        } else if id == VENDOR_ID && body.len() >= 4 && body[0] == 0x00 && body[1] == 0x50
            && body[2] == 0xF2 && body[3] == 0x01 {
            out.push(InformationElement::VendorWpa);
        }
        proof {
            let tail = parse_spec(blob@.subrange(end as int, n as int));
            if out@.len() > old_out.len() {
                assert(views(out@) =~= views(old_out) + seq![out@.last()@]);
                assert(views(out@) + tail =~= views(old_out) + (seq![out@.last()@] + tail));
            } else {
                assert(out@ == old_out);
            }
        }
        i = end;
    }
    out
}

} // verus!
