//! The lab's name server: its records and its answers.
use vstd::prelude::*;

use hickory_proto::op::{Message, MessageType, OpCode};
use hickory_proto::rr::rdata::{A, AAAA, TXT};
use hickory_proto::rr::{Name, RData, Record};

use crate::addr::{IpAddr, Ipv4Addr, Ipv6Addr};
use crate::table::{key_has_place, Table, TableKey};
use crate::text::{chars_of, clone_strings, views};

verus! {

/// Time to live of the records, in seconds.
pub const DEFAULT_TTL: u32 = 1;

/// Record type of IPv4 addresses.
pub const TYPE_A: u16 = 1;

/// Record type of texts.
pub const TYPE_TXT: u16 = 16;

/// Record type of IPv6 addresses.
pub const TYPE_AAAA: u16 = 28;

/// Response code of an answer.
pub const CODE_NO_ERROR: u16 = 0;

/// Response code for a name that does not exist.
pub const CODE_NX_DOMAIN: u16 = 3;

// ── names ────────────────────────────────────────────────────────────

/// A domain name.
#[derive(Debug)]
pub struct DnsName {
    /// The labels from left to right: the top-level one is last, the root has none.
    pub labels: Vec<Vec<u8>>,
    /// Whether the name ends at the root.
    pub fqdn: bool,
}

/// A domain name.
pub struct NameView {
    /// The labels from left to right: the top-level one is last, the root has none.
    pub labels: Seq<Seq<u8>>,
    /// Whether the name ends at the root.
    pub fqdn: bool,
}

/// The views of a list of labels.
pub open spec fn label_views(v: Seq<Vec<u8>>) -> Seq<Seq<u8>> {
    Seq::new(v.len(), |i: int| v[i]@)
}

impl View for DnsName {
    type V = NameView;

    open spec fn view(&self) -> NameView {
        NameView { labels: label_views(self.labels@), fqdn: self.fqdn }
    }
}

/// A byte with a capital letter made small.
pub open spec fn small(b: u8) -> u8 {
    if 65 <= b <= 90 {
        (b + 32) as u8
    } else {
        b
    }
}

/// A label with its capital letters made small.
pub open spec fn small_label(l: Seq<u8>) -> Seq<u8> {
    l.map_values(|b: u8| small(b))
}

/// A name with its capital letters made small.
pub open spec fn small_name(n: NameView) -> NameView {
    NameView { labels: n.labels.map_values(|l: Seq<u8>| small_label(l)), fqdn: n.fqdn }
}

fn to_small_label(l: &Vec<u8>) -> (r: Vec<u8>)
    ensures
        r@ == small_label(l@),
{
    let mut out: Vec<u8> = Vec::new();
    let mut i: usize = 0;
    while i < l.len()
        invariant
            i <= l.len(),
            out.len() == i,
            forall|j: int| 0 <= j < i ==> (#[trigger] out@[j]) == small(l@[j]),
        decreases l.len() - i,
    {
        let b = l[i];
        out.push(
            if 65 <= b && b <= 90 {
                b + 32
            } else {
                b
            },
        );
        i += 1;
    }
    assert(out@ =~= small_label(l@));
    out
}

fn copy_label(l: &Vec<u8>) -> (r: Vec<u8>)
    ensures
        r@ == l@,
{
    let mut out: Vec<u8> = Vec::new();
    let mut i: usize = 0;
    while i < l.len()
        invariant
            i <= l.len(),
            out.len() == i,
            forall|j: int| 0 <= j < i ==> (#[trigger] out@[j]) == l@[j],
        decreases l.len() - i,
    {
        out.push(l[i]);
        i += 1;
    }
    assert(out@ =~= l@);
    out
}

fn same_labels(a: &Vec<Vec<u8>>, b: &Vec<Vec<u8>>) -> (r: bool)
    ensures
        r == (label_views(a@) == label_views(b@)),
{
    let ghost x = label_views(a@);
    let ghost y = label_views(b@);
    if a.len() != b.len() {
        assert(x.len() != y.len());
        return false;
    }
    let mut i: usize = 0;
    while i < a.len()
        invariant
            i <= a.len(),
            a.len() == b.len(),
            x == label_views(a@),
            y == label_views(b@),
            forall|j: int| 0 <= j < i ==> (#[trigger] x[j]) == y[j],
        decreases a.len() - i,
    {
        if !crate::bytes::bytes_eq(a[i].as_slice(), b[i].as_slice()) {
            assert(x[i as int] != y[i as int]);
            return false;
        }
        i += 1;
    }
    assert(x =~= y);
    true
}

impl DnsName {
    /// The same name.
    pub fn copy(&self) -> (r: DnsName)
        ensures
            r@ == self@,
    {
        let mut labels: Vec<Vec<u8>> = Vec::new();
        let mut i: usize = 0;
        while i < self.labels.len()
            invariant
                i <= self.labels.len(),
                labels.len() == i,
                forall|j: int| 0 <= j < i ==> (#[trigger] labels@[j])@ == self.labels@[j]@,
            decreases self.labels.len() - i,
        {
            labels.push(copy_label(&self.labels[i]));
            i += 1;
        }
        assert(label_views(labels@) =~= label_views(self.labels@));
        DnsName { labels, fqdn: self.fqdn }
    }

    /// The name with its capital letters made small.
    pub fn to_small(&self) -> (r: DnsName)
        ensures
            r@ == small_name(self@),
    {
        let mut labels: Vec<Vec<u8>> = Vec::new();
        let mut i: usize = 0;
        while i < self.labels.len()
            invariant
                i <= self.labels.len(),
                labels.len() == i,
                forall|j: int|
                    0 <= j < i ==> (#[trigger] labels@[j])@ == small_label(self.labels@[j]@),
            decreases self.labels.len() - i,
        {
            labels.push(to_small_label(&self.labels[i]));
            i += 1;
        }
        assert(label_views(labels@) =~= small_name(self@).labels);
        DnsName { labels, fqdn: self.fqdn }
    }

    /// Whether two names are the same, letter by letter.
    pub fn same(&self, other: &DnsName) -> (r: bool)
        ensures
            r == (self@ == other@),
    {
        self.fqdn == other.fqdn && same_labels(&self.labels, &other.labels)
    }
}

/// The name that a text stands for, where it is one.
pub uninterp spec fn dns_name(text: Seq<char>) -> Option<NameView>;

/// `hickory_proto::rr::Name::from_ascii`, and the labels of what it returns.
/// The name is a function of the text alone; the rules for labels and escapes
/// are not spelled out.
#[verifier::external_body]
fn name_from_ascii(text: &str) -> (r: Option<DnsName>)
    ensures
        match r {
            Some(n) => dns_name(text@) == Some(n@),
            None => dns_name(text@) is None,
        },
{
    let n = Name::from_ascii(text).ok()?;
    Some(DnsName { labels: n.iter().map(|l| l.to_vec()).collect(), fqdn: n.is_fqdn() })
}

/// A text with the dot at its end that makes a name absolute.
pub open spec fn absolute(name: Seq<char>) -> Seq<char> {
    if name.len() > 0 && name.last() == '.' {
        name
    } else {
        name + "."@
    }
}

/// A text with the dot at its end that makes a name absolute.
pub fn absolute_name(name: &str) -> (r: String)
    ensures
        r@ == absolute(name@),
{
    let v = chars_of(name);
    let mut s = name.to_owned();
    if !(v.len() > 0 && v[v.len() - 1] == '.') {
        s.append(".");
    }
    s
}

/// The text is not a domain name.
#[derive(Clone, Copy, Debug, PartialEq, Eq, Structural)]
pub struct InvalidName;

/// Parses a name, which may lack the dot at its end.
pub fn parse_name(name: &str) -> (r: Result<DnsName, InvalidName>)
    ensures
        match dns_name(absolute(name@)) {
            Some(n) => r is Ok && r->Ok_0@ == n,
            None => r is Err,
        },
{
    match name_from_ascii(absolute_name(name).as_str()) {
        Some(n) => Ok(n),
        None => Err(InvalidName),
    }
}

// ── records ──────────────────────────────────────────────────────────

/// What a record holds.
#[derive(Debug)]
pub enum RecordData {
    /// An IPv4 address.
    A(Ipv4Addr),
    /// An IPv6 address.
    Aaaa(Ipv6Addr),
    /// Texts.
    Txt(Vec<String>),
}

/// What a record holds.
pub enum DataView {
    /// An IPv4 address.
    A(Ipv4Addr),
    /// An IPv6 address.
    Aaaa(Ipv6Addr),
    /// Texts.
    Txt(Seq<Seq<char>>),
}

impl View for RecordData {
    type V = DataView;

    open spec fn view(&self) -> DataView {
        match self {
            RecordData::A(a) => DataView::A(*a),
            RecordData::Aaaa(a) => DataView::Aaaa(*a),
            RecordData::Txt(v) => DataView::Txt(views(v@)),
        }
    }
}

/// A record.
#[derive(Debug)]
pub struct DnsRecord {
    /// The name, as it was given.
    pub owner: DnsName,
    /// Time to live, in seconds.
    pub ttl: u32,
    /// Content.
    pub data: RecordData,
}

/// A record.
pub struct RecordView {
    /// The name, as it was given.
    pub owner: NameView,
    /// Time to live, in seconds.
    pub ttl: u32,
    /// Content.
    pub data: DataView,
}

impl View for DnsRecord {
    type V = RecordView;

    open spec fn view(&self) -> RecordView {
        RecordView { owner: self.owner@, ttl: self.ttl, data: self.data@ }
    }
}

impl DnsRecord {
    /// The same record.
    pub fn copy(&self) -> (r: DnsRecord)
        ensures
            r@ == self@,
    {
        let data = match &self.data {
            RecordData::A(a) => RecordData::A(*a),
            RecordData::Aaaa(a) => RecordData::Aaaa(*a),
            RecordData::Txt(v) => RecordData::Txt(clone_strings(v)),
        };
        DnsRecord { owner: self.owner.copy(), ttl: self.ttl, data }
    }
}

/// What a record is found by.
#[derive(Debug)]
pub struct RecordKey {
    /// The name with small letters.
    pub name: DnsName,
    /// The record type.
    pub rtype: u16,
}

impl View for RecordKey {
    type V = (NameView, u16);

    open spec fn view(&self) -> (NameView, u16) {
        (self.name@, self.rtype)
    }
}

impl TableKey for RecordKey {
    fn same(&self, other: &RecordKey) -> (r: bool) {
        self.rtype == other.rtype && self.name.same(&other.name)
    }
}

/// What the record of a name and type is found by: letters count as small.
pub open spec fn key_of(name: NameView, rtype: u16) -> (NameView, u16) {
    (small_name(name), rtype)
}

fn record_key(name: &DnsName, rtype: u16) -> (r: RecordKey)
    ensures
        r@ == key_of(name@, rtype),
{
    RecordKey { name: name.to_small(), rtype }
}

// ── messages ─────────────────────────────────────────────────────────

/// A question.
#[derive(Debug)]
pub struct Question {
    /// The name, as it was asked.
    pub name: DnsName,
    /// The record type.
    pub qtype: u16,
}

/// A question.
pub struct QuestionView {
    /// The name, as it was asked.
    pub name: NameView,
    /// The record type.
    pub qtype: u16,
}

impl View for Question {
    type V = QuestionView;

    open spec fn view(&self) -> QuestionView {
        QuestionView { name: self.name@, qtype: self.qtype }
    }
}

/// The views of a list of questions.
pub open spec fn question_views(v: Seq<Question>) -> Seq<QuestionView> {
    Seq::new(v.len(), |i: int| v[i]@)
}

/// The views of a list of records.
pub open spec fn record_views(v: Seq<DnsRecord>) -> Seq<RecordView> {
    Seq::new(v.len(), |i: int| v[i]@)
}

/// A message that arrived.
#[derive(Debug)]
pub struct DnsQuery {
    /// Message identifier.
    pub id: u16,
    /// Whether it is a query, not a response.
    pub is_query: bool,
    /// Operation code.
    pub op_code: u8,
    /// Whether recursion is desired.
    pub recursion_desired: bool,
    /// Questions.
    pub questions: Vec<Question>,
}

/// A message that arrived.
pub struct QueryView {
    /// Message identifier.
    pub id: u16,
    /// Whether it is a query, not a response.
    pub is_query: bool,
    /// Operation code.
    pub op_code: u8,
    /// Whether recursion is desired.
    pub recursion_desired: bool,
    /// Questions.
    pub questions: Seq<QuestionView>,
}

impl View for DnsQuery {
    type V = QueryView;

    open spec fn view(&self) -> QueryView {
        QueryView {
            id: self.id,
            is_query: self.is_query,
            op_code: self.op_code,
            recursion_desired: self.recursion_desired,
            questions: question_views(self.questions@),
        }
    }
}

/// What a response says besides repeating the questions.
#[derive(Debug)]
pub struct DnsReply {
    /// Message identifier.
    pub id: u16,
    /// Operation code.
    pub op_code: u8,
    /// Whether recursion was desired.
    pub recursion_desired: bool,
    /// Whether recursion is available.
    pub recursion_available: bool,
    /// Whether the server speaks for the name.
    pub authoritative: bool,
    /// Response code.
    pub code: u16,
    /// Answers, all of the internet class.
    pub answers: Vec<DnsRecord>,
}

/// What a response says besides repeating the questions.
pub struct ReplyView {
    /// Message identifier.
    pub id: u16,
    /// Operation code.
    pub op_code: u8,
    /// Whether recursion was desired.
    pub recursion_desired: bool,
    /// Whether recursion is available.
    pub recursion_available: bool,
    /// Whether the server speaks for the name.
    pub authoritative: bool,
    /// Response code.
    pub code: u16,
    /// Answers, all of the internet class.
    pub answers: Seq<RecordView>,
}

impl View for DnsReply {
    type V = ReplyView;

    open spec fn view(&self) -> ReplyView {
        ReplyView {
            id: self.id,
            op_code: self.op_code,
            recursion_desired: self.recursion_desired,
            recursion_available: self.recursion_available,
            authoritative: self.authoritative,
            code: self.code,
            answers: record_views(self.answers@),
        }
    }
}

/// The message that the bytes hold, where they hold one.
pub uninterp spec fn dns_decoded(bytes: Seq<u8>) -> Option<QueryView>;

/// `hickory_proto::op::Message::from_vec` and the accessors of the message: what
/// the bytes hold. It is a function of the bytes alone; the wire format is not
/// spelled out.
#[verifier::external_body]
fn decode_query(buf: &[u8]) -> (r: Option<DnsQuery>)
    ensures
        match r {
            Some(q) => dns_decoded(buf@) == Some(q@),
            None => dns_decoded(buf@) is None,
        },
{
    let m = Message::from_vec(buf).ok()?;
    let questions = m.queries().iter().map(|q| {
        let labels = q.name().iter().map(|l| l.to_vec()).collect();
        let name = DnsName { labels, fqdn: q.name().is_fqdn() };
        Question { name, qtype: q.query_type().into() }
    });
    Some(DnsQuery {
        id: m.id(),
        is_query: m.message_type() == MessageType::Query,
        op_code: m.op_code().into(),
        recursion_desired: m.recursion_desired(),
        questions: questions.collect(),
    })
}

/// The bytes of a response to the packet of a query, where it can be written.
pub uninterp spec fn dns_encoded(query: Seq<u8>, reply: ReplyView) -> Option<Seq<u8>>;

/// `hickory_proto::op::Message::to_vec` on a response with the given content and
/// the questions of the given query. It is a function of the query and the
/// content alone; the wire format is not spelled out.
#[verifier::external_body]
fn encode_reply(query: &[u8], r: DnsReply) -> (out: Option<Vec<u8>>)
    ensures
        match out {
            Some(b) => dns_encoded(query@, r@) == Some(b@),
            None => dns_encoded(query@, r@) is None,
        },
{
    let mut m = Message::error_msg(r.id, OpCode::from_u8(r.op_code), r.code.into());
    m.set_recursion_desired(r.recursion_desired).set_authoritative(r.authoritative);
    m.set_recursion_available(r.recursion_available);
    m.add_queries(Message::from_vec(query).ok()?.take_queries());
    for a in r.answers {
        let data = match a.data {
            RecordData::A(ip) => RData::A(A(ip.bits.into())),
            RecordData::Aaaa(ip) => RData::AAAA(AAAA(ip.bits.into())),
            RecordData::Txt(v) => RData::TXT(TXT::new(v)),
        };
        m.add_answer(Record::from_rdata(Name::from_labels(a.owner.labels).ok()?, a.ttl, data));
    }
    m.to_vec().ok()
}

// ── the server ───────────────────────────────────────────────────────

/// The records by name and type.
pub type Records = Map<(NameView, u16), RecordView>;

/// The answers to the first `n` questions: the record of each, where there is
/// one.
pub open spec fn answers_to(records: Records, qs: Seq<QuestionView>, n: int) -> Seq<RecordView>
    decreases n,
{
    if n <= 0 {
        Seq::empty()
    } else {
        let before = answers_to(records, qs, n - 1);
        let k = key_of(qs[n - 1].name, qs[n - 1].qtype);
        if records.contains_key(k) {
            before.push(records[k])
        } else {
            before
        }
    }
}

/// Whether a name has a record of any type.
pub open spec fn name_known(records: Records, name: NameView) -> bool {
    exists|t: u16| #[trigger] records.contains_key(key_of(name, t))
}

/// Whether one of the names asked for has a record of any type.
pub open spec fn any_known(records: Records, qs: Seq<QuestionView>, n: int) -> bool {
    exists|i: int| 0 <= i < n && name_known(records, (#[trigger] qs[i]).name)
}

/// The response to a message: none to what is not a query. A name that does not
/// exist is denied; one that exists without the type asked for gets an empty
/// answer.
pub open spec fn reply_to(records: Records, q: QueryView) -> Option<ReplyView> {
    let n = q.questions.len() as int;
    let answers = answers_to(records, q.questions, n);
    if !q.is_query {
        None
    } else {
        Some(
            ReplyView {
                id: q.id,
                op_code: q.op_code,
                recursion_desired: q.recursion_desired,
                recursion_available: false,
                authoritative: true,
                code: if answers.len() > 0 || any_known(records, q.questions, n) {
                    CODE_NO_ERROR
                } else {
                    CODE_NX_DOMAIN
                },
                answers,
            },
        )
    }
}

/// The address that a name resolves to: that of its A record, else that of its
/// AAAA record.
pub open spec fn resolved(records: Records, name: NameView) -> Option<IpAddr> {
    let a = key_of(name, TYPE_A);
    let aaaa = key_of(name, TYPE_AAAA);
    if records.contains_key(a) && address_in(records[a]) is Some {
        address_in(records[a])
    } else if records.contains_key(aaaa) {
        address_in(records[aaaa])
    } else {
        None
    }
}

/// The address that a record holds.
pub open spec fn address_in(r: RecordView) -> Option<IpAddr> {
    match r.data {
        DataView::A(ip) => Some(IpAddr::V4(ip)),
        DataView::Aaaa(ip) => Some(IpAddr::V6(ip)),
        DataView::Txt(_) => None,
    }
}

/// The type and content of the record of an address.
pub open spec fn host_record(ip: IpAddr) -> (u16, DataView) {
    match ip {
        IpAddr::V4(a) => (TYPE_A, DataView::A(a)),
        IpAddr::V6(a) => (TYPE_AAAA, DataView::Aaaa(a)),
    }
}

/// The records with one set, in place of the one of its name and type.
pub open spec fn with_record(records: Records, name: NameView, rtype: u16, data: DataView) -> Records {
    records.insert(
        key_of(name, rtype),
        RecordView { owner: name, ttl: DEFAULT_TTL, data },
    )
}

fn address_of(r: &DnsRecord) -> (a: Option<IpAddr>)
    ensures
        a == address_in(r@),
{
    match &r.data {
        RecordData::A(ip) => Some(IpAddr::V4(*ip)),
        RecordData::Aaaa(ip) => Some(IpAddr::V6(*ip)),
        RecordData::Txt(_) => None,
    }
}

/// The records of the lab's name server.
#[derive(Debug)]
pub struct DnsServer {
    records: Table<RecordKey, DnsRecord>,
}

impl View for DnsServer {
    type V = Records;

    closed spec fn view(&self) -> Records {
        self.records@
    }
}

impl DnsServer {
    /// The table of records is well formed.
    pub closed spec fn wf(self) -> bool {
        self.records.wf()
    }

    /// A server without records.
    pub fn new() -> (r: DnsServer)
        ensures
            r.wf(),
            r@ == Map::<(NameView, u16), RecordView>::empty(),
    {
        DnsServer { records: Table::new() }
    }

    /// Sets the record of an address, in place of the one of the same type for
    /// this name.
    pub fn set_host(&mut self, name: &str, ip: IpAddr) -> (r: Result<(), InvalidName>)
        requires
            old(self).wf(),
        ensures
            final(self).wf(),
            match dns_name(absolute(name@)) {
                Some(n) => r is Ok && final(self)@ == with_record(
                    old(self)@,
                    n,
                    host_record(ip).0,
                    host_record(ip).1,
                ),
                None => r is Err && final(self)@ == old(self)@,
            },
    {
        let owner = match parse_name(name) {
            Ok(n) => n,
            Err(e) => {
                return Err(e);
            },
        };
        let (rtype, data) = match ip {
            IpAddr::V4(a) => (TYPE_A, RecordData::A(a)),
            IpAddr::V6(a) => (TYPE_AAAA, RecordData::Aaaa(a)),
        };
        let key = record_key(&owner, rtype);
        self.records.insert(key, DnsRecord { owner, ttl: DEFAULT_TTL, data });
        Ok(())
    }

    /// Sets the text record of a name, in place of the one that is there.
    pub fn set_txt(&mut self, name: &str, values: &[&str]) -> (r: Result<(), InvalidName>)
        requires
            old(self).wf(),
        ensures
            final(self).wf(),
            match dns_name(absolute(name@)) {
                Some(n) => r is Ok && final(self)@ == with_record(
                    old(self)@,
                    n,
                    TYPE_TXT,
                    DataView::Txt(Seq::new(values@.len(), |i: int| values@[i]@)),
                ),
                None => r is Err && final(self)@ == old(self)@,
            },
    {
        let owner = match parse_name(name) {
            Ok(n) => n,
            Err(e) => {
                return Err(e);
            },
        };
        let mut texts: Vec<String> = Vec::new();
        let mut i: usize = 0;
        while i < values.len()
            invariant
                i <= values.len(),
                texts.len() == i,
                forall|j: int| 0 <= j < i ==> (#[trigger] texts@[j])@ == values@[j]@,
            decreases values.len() - i,
        {
            texts.push(values[i].to_owned());
            i += 1;
        }
        assert(views(texts@) =~= Seq::new(values@.len(), |i: int| values@[i]@));
        let key = record_key(&owner, TYPE_TXT);
        let data = RecordData::Txt(texts);
        self.records.insert(key, DnsRecord { owner, ttl: DEFAULT_TTL, data });
        Ok(())
    }

    /// Removes the record of a name and type.
    pub fn remove(&mut self, name: &str, rtype: u16) -> (r: Result<(), InvalidName>)
        requires
            old(self).wf(),
        ensures
            final(self).wf(),
            match dns_name(absolute(name@)) {
                Some(n) => r is Ok && final(self)@ == old(self)@.remove(key_of(n, rtype)),
                None => r is Err && final(self)@ == old(self)@,
            },
    {
        match parse_name(name) {
            Ok(n) => {
                let _ = self.records.remove(&record_key(&n, rtype));
                Ok(())
            },
            Err(e) => Err(e),
        }
    }

    /// Looks up the address of a name.
    pub fn resolve(&self, name: &str) -> (r: Option<IpAddr>)
        requires
            self.wf(),
        ensures
            match dns_name(absolute(name@)) {
                Some(n) => r == resolved(self@, n),
                None => r is None,
            },
    {
        match parse_name(name) {
            Ok(n) => self.resolve_name(&n),
            Err(_) => None,
        }
    }

    /// Looks up the address of a name that was parsed.
    pub fn resolve_name(&self, name: &DnsName) -> (r: Option<IpAddr>)
        requires
            self.wf(),
        ensures
            r == resolved(self@, name@),
    {
        if let Some(rec) = self.records.get(&record_key(name, TYPE_A)) {
            let a = address_of(rec);
            if a.is_some() {
                return a;
            }
        }
        match self.records.get(&record_key(name, TYPE_AAAA)) {
            Some(rec) => address_of(rec),
            None => None,
        }
    }

    fn knows(&self, name: &DnsName) -> (r: bool)
        requires
            self.wf(),
        ensures
            r == name_known(self@, name@),
    {
        let key = name.to_small();
        let mut i: usize = 0;
        let n = self.records.len();
        while i < n
            invariant
                i <= n,
                n == self.records.pairs().len(),
                self.wf(),
                key@ == small_name(name@),
                forall|j: int| 0 <= j < i ==> (#[trigger] self.records.pairs()[j]).0.0 != key@,
            decreases n - i,
        {
            let (k, _) = self.records.at(i);
            if k.name.same(&key) {
                assert(self@.contains_key(key_of(name@, k.rtype)));
                return true;
            }
            i += 1;
        }
        proof {
            if name_known(self@, name@) {
                let t = choose|t: u16| #[trigger] self@.contains_key(key_of(name@, t));
                let j = key_has_place(self.records, key_of(name@, t));
                assert(self.records.pairs()[j].0.0 == key@);
            }
        }
        false
    }

    /// The response to a message that was decoded.
    pub fn answer(&self, query: &DnsQuery) -> (r: Option<DnsReply>)
        requires
            self.wf(),
        ensures
            match reply_to(self@, query@) {
                Some(v) => r is Some && r->0@ == v,
                None => r is None,
            },
    {
        if !query.is_query {
            return None;
        }
        let ghost qs = query@.questions;
        let mut answers: Vec<DnsRecord> = Vec::new();
        let mut known = false;
        let mut i: usize = 0;
        assert(record_views(answers@) =~= Seq::<RecordView>::empty());
        while i < query.questions.len()
            invariant
                self.wf(),
                i <= query.questions.len(),
                qs == query@.questions,
                record_views(answers@) == answers_to(self@, qs, i as int),
                known == any_known(self@, qs, i as int),
            decreases query.questions.len() - i,
        {
            let q = &query.questions[i];
            assert(q@ == qs[i as int]);
            let ghost before = record_views(answers@);
            if !known {
                known = self.knows(&q.name);
                proof {
                    if known {
                        assert(name_known(self@, qs[i as int].name));
                    } else {
                        assert forall|j: int| 0 <= j < i + 1 implies !name_known(
                            self@,
                            (#[trigger] qs[j]).name,
                        ) by {}
                    }
                }
            }
            if let Some(rec) = self.records.get(&record_key(&q.name, q.qtype)) {
                answers.push(rec.copy());
                assert(record_views(answers@) =~= before.push(rec@));
            }
            i += 1;
        }
        let code = if answers.len() > 0 || known {
            CODE_NO_ERROR
        } else {
            CODE_NX_DOMAIN
        };
        Some(
            DnsReply {
                id: query.id,
                op_code: query.op_code,
                recursion_desired: query.recursion_desired,
                recursion_available: false,
                authoritative: true,
                code,
                answers,
            },
        )
    }

    /// The response to a packet: none where it holds no query, or where the
    /// response cannot be written.
    pub fn handle_query(&self, buf: &[u8]) -> (r: Option<Vec<u8>>)
        requires
            self.wf(),
        ensures
            match dns_decoded(buf@) {
                None => r is None,
                Some(q) => match reply_to(self@, q) {
                    None => r is None,
                    Some(v) => match dns_encoded(buf@, v) {
                        None => r is None,
                        Some(b) => r is Some && r->0@ == b,
                    },
                },
            },
    {
        match decode_query(buf) {
            None => None,
            Some(q) => match self.answer(&q) {
                None => None,
                Some(reply) => encode_reply(buf, reply),
            },
        }
    }
}

// ── laws ─────────────────────────────────────────────────────────────

/// The answer to a question is among the answers.
proof fn answer_is_given(records: Records, qs: Seq<QuestionView>, n: int, i: int)
    requires
        0 <= i < n <= qs.len(),
        records.contains_key(key_of(qs[i].name, qs[i].qtype)),
    ensures
        answers_to(records, qs, n).contains(records[key_of(qs[i].name, qs[i].qtype)]),
    decreases n,
{
    let rec = records[key_of(qs[i].name, qs[i].qtype)];
    let all = answers_to(records, qs, n);
    let before = answers_to(records, qs, n - 1);
    if i == n - 1 {
        assert(all.last() == rec);
    } else {
        answer_is_given(records, qs, n - 1, i);
        let j = choose|j: int| 0 <= j < before.len() && before[j] == rec;
        assert(all[j] == rec);
    }
}

/// A record is visible to queries as soon as it is set: a query that asks for
/// its name, in letters of any size, and its type gets it, with no error.
pub proof fn set_record_is_served(
    records: Records,
    name: NameView,
    rtype: u16,
    data: DataView,
    q: QueryView,
    i: int,
)
    requires
        q.is_query,
        0 <= i < q.questions.len(),
        small_name(q.questions[i].name) == small_name(name),
        q.questions[i].qtype == rtype,
    ensures
        ({
            let reply = reply_to(with_record(records, name, rtype, data), q)->0;
            &&& reply.code == CODE_NO_ERROR
            &&& reply.answers.contains(RecordView { owner: name, ttl: DEFAULT_TTL, data })
        }),
{
    let after = with_record(records, name, rtype, data);
    answer_is_given(after, q.questions, q.questions.len() as int, i);
}

/// A host that was set resolves to its address; an IPv6 address does so unless
/// the name has an IPv4 one.
pub proof fn set_host_resolves(records: Records, name: NameView, ip: IpAddr)
    requires
        ip is V6 ==> !records.contains_key(key_of(name, TYPE_A)),
    ensures
        resolved(
            with_record(records, name, host_record(ip).0, host_record(ip).1),
            name,
        ) == Some(ip),
{
}

/// A name without records is denied.
pub proof fn unknown_name_is_denied(records: Records, q: QueryView)
    requires
        q.is_query,
        forall|i: int|
            0 <= i < q.questions.len() ==> !name_known(records, (#[trigger] q.questions[i]).name),
    ensures
        reply_to(records, q)->0.code == CODE_NX_DOMAIN,
        reply_to(records, q)->0.answers.len() == 0,
{
    no_answer(records, q.questions, q.questions.len() as int);
}

proof fn no_answer(records: Records, qs: Seq<QuestionView>, n: int)
    requires
        n <= qs.len(),
        forall|i: int| 0 <= i < qs.len() ==> !name_known(records, (#[trigger] qs[i]).name),
    ensures
        answers_to(records, qs, n).len() == 0,
    decreases n,
{
    if n > 0 {
        no_answer(records, qs, n - 1);
        assert(!name_known(records, qs[n - 1].name));
    }
}

} // verus!
