//! The wire format read both ways: what was written by the rules of the
//! format is read back as it was.
//!
//! The client only writes requests and only reads replies. The laws here
//! say that each direction has its inverse: a request can be read back
//! field by field, and a reply that a server composed by the rules decodes
//! to what the server meant.

use crate::attrs::{
    ExtensionView, FileAttrView, extensions_fit, lemma_attrs_round_trip, lemma_concat_assoc,
    lemma_extension_round_trip, lemma_wire_extensions_front, parse_attrs, parse_extension, prepend,
    wire_attrs, wire_extension, wire_extensions,
};
use crate::error::Error;
use crate::requests::Request;
use crate::responses::{
    FxpStatusView, FxpVersionView, NameView, SSH_FXP_VERSION, SSH_FX_OP_UNSUPPORTED,
    SftpResponsePacketView, SftpResponseView, lemma_frame_of_payload, parse_extension_list,
    parse_frame, parse_name, parse_name_list, parse_names, parse_packet, parse_payload,
    parse_status, parse_version, status_code,
};
use crate::session::{fits, frame};
use crate::wire::{
    be32, be64, lemma_bytes_round_trip, lemma_u32_round_trip, lemma_u64_round_trip,
    lemma_u8_round_trip, parse_bytes, parse_u32, parse_u64, wire_bytes,
};
use vstd::prelude::*;
use vstd::utf8::{encode_utf8, encode_utf8_decode_utf8, encode_utf8_valid_utf8};

verus! {

/// One field of a request.
pub enum Field {
    Bytes(Seq<u8>),
    U32(u32),
    U64(u64),
    Attrs(FileAttrView),
}

/// What kind of field stands at a place in a request.
pub enum FieldKind {
    Bytes,
    U32,
    U64,
    Attrs,
}

/// The kind of the field `f`.
pub open spec fn kind_of(f: Field) -> FieldKind {
    match f {
        Field::Bytes(_) => FieldKind::Bytes,
        Field::U32(_) => FieldKind::U32,
        Field::U64(_) => FieldKind::U64,
        Field::Attrs(_) => FieldKind::Attrs,
    }
}

/// The kinds of the fields `fs`, in order.
pub open spec fn kinds_of(fs: Seq<Field>) -> Seq<FieldKind> {
    fs.map_values(|f: Field| kind_of(f))
}

/// The field can be written without loss: its lengths and counts fit four
/// bytes, and its attributes come in pairs.
pub open spec fn field_fits(f: Field) -> bool {
    match f {
        Field::Bytes(b) => b.len() <= u32::MAX,
        Field::U32(_) => true,
        Field::U64(_) => true,
        Field::Attrs(a) => a.paired() && extensions_fit(a.extensions) && a.extensions.len()
            <= u32::MAX,
    }
}

/// Each of the fields can be written without loss.
pub open spec fn fields_fit(fs: Seq<Field>) -> bool {
    forall|i: int| 0 <= i < fs.len() ==> field_fits(#[trigger] fs[i])
}

/// A field on the wire.
#[verifier::opaque]
pub open spec fn wire_field(f: Field) -> Seq<u8> {
    match f {
        Field::Bytes(b) => wire_bytes(b),
        Field::U32(n) => be32(n),
        Field::U64(n) => be64(n),
        Field::Attrs(a) => wire_attrs(a),
    }
}

/// Fields on the wire, one after the other.
pub open spec fn wire_fields(fs: Seq<Field>) -> Seq<u8>
    decreases fs.len(),
{
    if fs.len() == 0 {
        Seq::empty()
    } else {
        wire_field(fs[0]) + wire_fields(fs.drop_first())
    }
}

/// Reading a field of the kind `kind`.
pub open spec fn parse_field(kind: FieldKind, s: Seq<u8>) -> Result<(Field, Seq<u8>), Error> {
    match kind {
        FieldKind::Bytes => match parse_bytes(s) {
            Ok((b, rest)) => Ok((Field::Bytes(b), rest)),
            Err(e) => Err(e),
        },
        FieldKind::U32 => match parse_u32(s) {
            Ok((n, rest)) => Ok((Field::U32(n), rest)),
            Err(e) => Err(e),
        },
        FieldKind::U64 => match parse_u64(s) {
            Ok((n, rest)) => Ok((Field::U64(n), rest)),
            Err(e) => Err(e),
        },
        FieldKind::Attrs => match parse_attrs(s) {
            Ok((a, rest)) => Ok((Field::Attrs(a), rest)),
            Err(e) => Err(e),
        },
    }
}

/// Reading fields of the kinds `kinds`, in order.
pub open spec fn parse_fields(kinds: Seq<FieldKind>, s: Seq<u8>) -> Result<
    (Seq<Field>, Seq<u8>),
    Error,
>
    decreases kinds.len(),
{
    if kinds.len() == 0 {
        Ok((Seq::empty(), s))
    } else {
        match parse_field(kinds[0], s) {
            Err(e) => Err(e),
            Ok((f, s1)) => prepend(seq![f], parse_fields(kinds.drop_first(), s1)),
        }
    }
}

/// A field that was written is read back, whatever follows it.
pub proof fn lemma_field_round_trip(f: Field, tail: Seq<u8>)
    requires
        field_fits(f),
    ensures
        parse_field(kind_of(f), wire_field(f) + tail) == Ok::<(Field, Seq<u8>), Error>((f, tail)),
{
    reveal(wire_field);
    match f {
        Field::Bytes(b) => lemma_bytes_round_trip(b, tail),
        Field::U32(n) => lemma_u32_round_trip(n, tail),
        Field::U64(n) => lemma_u64_round_trip(n, tail),
        Field::Attrs(a) => lemma_attrs_round_trip(a, tail),
    }
}

/// Fields that were written are read back in their order, whatever follows
/// them. Every request is a list of fields, so this holds of every request.
pub proof fn lemma_fields_round_trip(fs: Seq<Field>, tail: Seq<u8>)
    requires
        fields_fit(fs),
    ensures
        parse_fields(kinds_of(fs), wire_fields(fs) + tail) == Ok::<(Seq<Field>, Seq<u8>), Error>(
            (fs, tail),
        ),
    decreases fs.len(),
{
    if fs.len() == 0 {
        assert(wire_fields(fs) + tail =~= tail);
        assert(fs =~= Seq::<Field>::empty());
    } else {
        let f = fs[0];
        let rest = fs.drop_first();
        assert(kinds_of(fs)[0] == kind_of(f));
        assert(kinds_of(fs).drop_first() =~= kinds_of(rest));
        assert(fields_fit(rest)) by {
            assert forall|i: int| 0 <= i < rest.len() implies field_fits(#[trigger] rest[i]) by {
                assert(rest[i] == fs[i + 1]);
            }
        }
        lemma_concat_assoc(wire_field(f), wire_fields(rest), tail);
        lemma_field_round_trip(f, wire_fields(rest) + tail);
        lemma_fields_round_trip(rest, tail);
        assert(seq![f] + rest =~= fs);
    }
}

/// The encoding of a list of one field.
pub proof fn lemma_wire_of_one_field(a: Field)
    ensures
        wire_fields(seq![a]) == wire_field(a),
{
    let fs = seq![a];
    assert(fs.drop_first() =~= Seq::<Field>::empty());
    assert(wire_fields(fs.drop_first()) == Seq::<u8>::empty());
    assert(fs[0] == a);
    assert(wire_fields(fs) == wire_field(a) + wire_fields(fs.drop_first()));
    lemma_append_nothing(wire_field(a));
}

/// Appending nothing changes nothing.
proof fn lemma_append_nothing(x: Seq<u8>)
    ensures
        x + Seq::<u8>::empty() == x,
{
    assert(x + Seq::<u8>::empty() =~= x);
}

/// The encoding of a list of two fields.
pub proof fn lemma_wire_of_two_fields(a: Field, b: Field)
    ensures
        wire_fields(seq![a, b]) == wire_field(a) + wire_field(b),
{
    let fs = seq![a, b];
    assert(fs.drop_first() =~= seq![b]);
    assert(fs[0] == a);
    assert(wire_fields(fs) == wire_field(a) + wire_fields(fs.drop_first()));
    lemma_wire_of_one_field(b);
}

/// The encoding of a list of three fields.
pub proof fn lemma_wire_of_three_fields(a: Field, b: Field, c: Field)
    ensures
        wire_fields(seq![a, b, c]) == wire_field(a) + wire_field(b) + wire_field(c),
{
    let fs = seq![a, b, c];
    assert(fs.drop_first() =~= seq![b, c]);
    assert(fs[0] == a);
    assert(wire_fields(fs) == wire_field(a) + wire_fields(fs.drop_first()));
    lemma_wire_of_two_fields(b, c);
    lemma_concat_assoc(wire_field(a), wire_field(b), wire_field(c));
}

/// A request that was written is read back field by field, whatever
/// follows it.
pub proof fn lemma_request_round_trip<P: Request>(request: &P, tail: Seq<u8>)
    requires
        fields_fit(request.fields()),
    ensures
        parse_fields(kinds_of(request.fields()), request.wire() + tail) == Ok::<
            (Seq<Field>, Seq<u8>),
            Error,
        >((request.fields(), tail)),
{
    request.lemma_wire_is_fields();
    lemma_fields_round_trip(request.fields(), tail);
}

/// If every extension of a list fits, so does every one but the first.
proof fn lemma_rest_fits(es: Seq<ExtensionView>)
    requires
        es.len() > 0,
        extensions_fit(es),
    ensures
        extensions_fit(es.drop_first()),
{
    let rest = es.drop_first();
    assert forall|i: int| 0 <= i < rest.len() implies (#[trigger] rest[i]).name.len() <= u32::MAX
        && rest[i].data.len() <= u32::MAX by {
        assert(rest[i] == es[i + 1]);
    }
}

/// A list of extensions as fields: for each its name, then its data.
pub open spec fn extension_fields(es: Seq<ExtensionView>) -> Seq<Field>
    decreases es.len(),
{
    if es.len() == 0 {
        Seq::empty()
    } else {
        seq![Field::Bytes(es[0].name), Field::Bytes(es[0].data)] + extension_fields(
            es.drop_first(),
        )
    }
}

/// Extensions are written as their fields are.
pub proof fn lemma_extensions_are_fields(es: Seq<ExtensionView>)
    ensures
        wire_extensions(es) == wire_fields(extension_fields(es)),
        extensions_fit(es) ==> fields_fit(extension_fields(es)),
    decreases es.len(),
{
    reveal(wire_field);
    if es.len() == 0 {
    } else {
        let e = es[0];
        let rest = es.drop_first();
        let fs = extension_fields(es);
        assert(es =~= seq![e] + rest);
        lemma_wire_extensions_front(e, rest);
        lemma_extensions_are_fields(rest);
        assert(fs.drop_first() =~= seq![Field::Bytes(e.data)] + extension_fields(rest));
        assert(fs.drop_first().drop_first() =~= extension_fields(rest));
        assert(wire_fields(fs) == wire_bytes(e.name) + wire_fields(fs.drop_first()));
        assert(wire_fields(fs.drop_first()) == wire_bytes(e.data) + wire_fields(
            extension_fields(rest),
        ));
        lemma_concat_assoc(wire_bytes(e.name), wire_bytes(e.data), wire_extensions(rest));
        if extensions_fit(es) {
            assert forall|i: int| 0 <= i < fs.len() implies field_fits(#[trigger] fs[i]) by {
                if i >= 2 {
                    assert(fs[i] == extension_fields(rest)[i - 2]);
                    lemma_rest_fits(es);
                } else {
                    assert(es[0] == e);
                }
            }
        }
    }
}

/// A name on the wire: the file name, the long form, the attributes.
pub open spec fn wire_name(n: NameView) -> Seq<u8> {
    wire_bytes(n.filename) + wire_bytes(n.longname) + wire_attrs(n.attrs)
}

/// The name can be written without loss.
pub open spec fn name_fits(n: NameView) -> bool {
    &&& n.filename.len() <= u32::MAX
    &&& n.longname.len() <= u32::MAX
    &&& field_fits(Field::Attrs(n.attrs))
}

/// Names on the wire, one after the other.
pub open spec fn wire_names(ns: Seq<NameView>) -> Seq<u8>
    decreases ns.len(),
{
    if ns.len() == 0 {
        Seq::empty()
    } else {
        wire_name(ns[0]) + wire_names(ns.drop_first())
    }
}

/// A name that was written is read back, whatever follows it.
pub proof fn lemma_name_round_trip(n: NameView, tail: Seq<u8>)
    requires
        name_fits(n),
    ensures
        parse_name(wire_name(n) + tail) == Ok::<(NameView, Seq<u8>), Error>((n, tail)),
{
    let t2 = wire_attrs(n.attrs) + tail;
    let t1 = wire_bytes(n.longname) + t2;
    lemma_bytes_round_trip(n.filename, t1);
    lemma_bytes_round_trip(n.longname, t2);
    lemma_attrs_round_trip(n.attrs, tail);
    lemma_concat_assoc(wire_bytes(n.filename) + wire_bytes(n.longname), wire_attrs(n.attrs), tail);
    lemma_concat_assoc(wire_bytes(n.filename), wire_bytes(n.longname), t2);
}

/// Reading one name and then the rest is reading them all.
proof fn lemma_names_step(
    n: NameView,
    rest: Seq<NameView>,
    s: Seq<u8>,
    s1: Seq<u8>,
    tail: Seq<u8>,
)
    requires
        parse_name(s) == Ok::<(NameView, Seq<u8>), Error>((n, s1)),
        parse_names(s1, rest.len()) == Ok::<(Seq<NameView>, Seq<u8>), Error>((rest, tail)),
    ensures
        parse_names(s, rest.len() + 1) == Ok::<(Seq<NameView>, Seq<u8>), Error>(
            (seq![n] + rest, tail),
        ),
{
    assert((rest.len() + 1 - 1) as nat == rest.len());
}

/// Names that were written are read back in their order, whatever follows
/// them.
pub proof fn lemma_names_round_trip(ns: Seq<NameView>, tail: Seq<u8>)
    requires
        forall|i: int| 0 <= i < ns.len() ==> name_fits(#[trigger] ns[i]),
    ensures
        parse_names(wire_names(ns) + tail, ns.len()) == Ok::<(Seq<NameView>, Seq<u8>), Error>(
            (ns, tail),
        ),
    decreases ns.len(),
{
    if ns.len() == 0 {
        lemma_prepend_nothing(tail);
        assert(ns =~= Seq::<NameView>::empty());
    } else {
        let n = ns[0];
        let rest = ns.drop_first();
        assert forall|i: int| 0 <= i < rest.len() implies name_fits(#[trigger] rest[i]) by {
            assert(rest[i] == ns[i + 1]);
        }
        lemma_concat_assoc(wire_name(n), wire_names(rest), tail);
        lemma_name_round_trip(n, wire_names(rest) + tail);
        lemma_names_round_trip(rest, tail);
        lemma_names_step(n, rest, wire_names(ns) + tail, wire_names(rest) + tail, tail);
        assert(seq![n] + rest =~= ns);
    }
}

/// Nothing in front changes nothing.
proof fn lemma_prepend_nothing(x: Seq<u8>)
    ensures
        Seq::<u8>::empty() + x == x,
{
    assert(Seq::<u8>::empty() + x =~= x);
}

/// The body of a name message that was written is read back.
pub proof fn lemma_name_list_round_trip(ns: Seq<NameView>, tail: Seq<u8>)
    requires
        ns.len() <= u32::MAX,
        forall|i: int| 0 <= i < ns.len() ==> name_fits(#[trigger] ns[i]),
    ensures
        parse_name_list(be32(ns.len() as u32) + wire_names(ns) + tail) == Ok::<
            (Seq<NameView>, Seq<u8>),
            Error,
        >((ns, tail)),
{
    lemma_concat_assoc(be32(ns.len() as u32), wire_names(ns), tail);
    lemma_u32_round_trip(ns.len() as u32, wire_names(ns) + tail);
    lemma_names_round_trip(ns, tail);
}

/// Extensions that were written to the end of a frame are read back.
pub proof fn lemma_extension_list_round_trip(es: Seq<ExtensionView>)
    requires
        extensions_fit(es),
    ensures
        parse_extension_list(wire_extensions(es)) == Ok::<(Seq<ExtensionView>, Seq<u8>), Error>(
            (es, Seq::empty()),
        ),
    decreases es.len(),
{
    if es.len() == 0 {
        assert(es =~= Seq::<ExtensionView>::empty());
    } else {
        let e = es[0];
        let rest = es.drop_first();
        assert(es =~= seq![e] + rest);
        lemma_rest_fits(es);
        lemma_wire_extensions_front(e, rest);
        lemma_extension_round_trip(e, wire_extensions(rest));
        lemma_extension_list_round_trip(rest);
        lemma_bytes_round_trip(e.name, wire_bytes(e.data));
        assert(wire_extension(e).len() >= 8);
    }
}

/// The body of a version message that was written is read back.
pub proof fn lemma_version_round_trip(v: FxpVersionView)
    requires
        extensions_fit(v.extensions),
    ensures
        parse_version(be32(v.version) + wire_extensions(v.extensions)) == Ok::<
            (FxpVersionView, Seq<u8>),
            Error,
        >((v, Seq::empty())),
{
    lemma_u32_round_trip(v.version, wire_extensions(v.extensions));
    lemma_extension_list_round_trip(v.extensions);
}

/// The body of a status message: the code, the text in UTF-8, the language
/// tag.
pub open spec fn wire_status(code: u32, msg: Seq<char>, lang: Seq<u8>) -> Seq<u8> {
    be32(code) + wire_bytes(encode_utf8(msg)) + wire_bytes(lang)
}

/// The body of a status message that was written is read back: the code by
/// its name, the text as it was. What follows a code of the protocol is
/// left; what follows any other code goes with the code.
pub proof fn lemma_status_round_trip(code: u32, msg: Seq<char>, lang: Seq<u8>, tail: Seq<u8>)
    requires
        encode_utf8(msg).len() <= u32::MAX,
        lang.len() <= u32::MAX,
    ensures
        parse_status(wire_status(code, msg, lang) + tail) == Ok::<(FxpStatusView, Seq<u8>), Error>(
            (
                FxpStatusView { code: status_code(code, tail), msg },
                if code <= SSH_FX_OP_UNSUPPORTED {
                    tail
                } else {
                    Seq::empty()
                },
            ),
        ),
{
    let t2 = wire_bytes(lang) + tail;
    let t1 = wire_bytes(encode_utf8(msg)) + t2;
    lemma_u32_round_trip(code, t1);
    lemma_bytes_round_trip(encode_utf8(msg), t2);
    lemma_bytes_round_trip(lang, tail);
    encode_utf8_valid_utf8(msg);
    encode_utf8_decode_utf8(msg);
    lemma_concat_assoc(be32(code) + wire_bytes(encode_utf8(msg)), wire_bytes(lang), tail);
    lemma_concat_assoc(be32(code), wire_bytes(encode_utf8(msg)), t2);
}

/// A reply in a frame is read back: the request id, and what its body
/// holds. This is for every kind of reply that carries a request id.
pub proof fn lemma_reply_round_trip(
    msg_type: u8,
    req_id: u32,
    body: Seq<u8>,
    packet: SftpResponsePacketView,
    tail: Seq<u8>,
)
    requires
        msg_type != SSH_FXP_VERSION,
        fits(body),
        parse_packet(msg_type, body) == Ok::<(SftpResponsePacketView, Seq<u8>), Error>(
            (packet, Seq::empty()),
        ),
    ensures
        parse_frame(frame(msg_type, req_id, body) + tail) == Ok::<
            (SftpResponseView, Seq<u8>),
            Error,
        >((SftpResponseView { req_id, packet }, tail)),
{
    let payload = seq![msg_type] + be32(req_id) + body;
    assert(parse_payload(payload) == Ok::<(SftpResponseView, Seq<u8>), Error>(
        (SftpResponseView { req_id, packet }, Seq::empty()),
    )) by {
        reveal(parse_payload);
        lemma_concat_assoc(seq![msg_type], be32(req_id), body);
        lemma_u8_round_trip(msg_type, be32(req_id) + body);
        lemma_u32_round_trip(req_id, body);
    }
    lemma_frame_of_payload(payload, SftpResponseView { req_id, packet }, tail);
    assert(frame(msg_type, req_id, body) =~= be32(payload.len() as u32) + payload);
}

/// A version message in a frame is read back. It carries no request id and
/// counts as the answer to request 0.
pub proof fn lemma_version_frame_round_trip(v: FxpVersionView, tail: Seq<u8>)
    requires
        extensions_fit(v.extensions),
        1 + 4 + wire_extensions(v.extensions).len() <= u32::MAX,
    ensures
        parse_frame(
            be32((1 + 4 + wire_extensions(v.extensions).len()) as u32) + (seq![SSH_FXP_VERSION]
                + (be32(v.version) + wire_extensions(v.extensions))) + tail,
        ) == Ok::<(SftpResponseView, Seq<u8>), Error>(
            (SftpResponseView { req_id: 0, packet: SftpResponsePacketView::Version(v) }, tail),
        ),
{
    let body = be32(v.version) + wire_extensions(v.extensions);
    let payload = seq![SSH_FXP_VERSION] + body;
    let response = SftpResponseView { req_id: 0, packet: SftpResponsePacketView::Version(v) };
    assert(parse_payload(payload) == Ok::<(SftpResponseView, Seq<u8>), Error>(
        (response, Seq::empty()),
    )) by {
        reveal(parse_payload);
        lemma_u8_round_trip(SSH_FXP_VERSION, body);
        lemma_version_round_trip(v);
    }
    lemma_frame_of_payload(payload, response, tail);
}

} // verus!
