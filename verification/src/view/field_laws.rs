//! What each builder puts under each name: the fields of an object, looked up by
//! name.
use crate::backend::HwBreakpointAccess;
use crate::bugchecks::{BugcheckAnalysis, BugcheckArg, BugcheckFault, BugcheckTrapFrame};
use crate::gdb::breakpoints::{Breakpoint, BreakpointScope, HardwareBreakpoint};
use crate::inspect::{
    AddressDescription, AddressModule, AttachedDevice, DeviceObjectDetail, DriverDevice,
    DriverObjectDetail, IoStackLocationInfo, IrpHit, IrpInfo, MemoryRegionInfo, MemorySearchMatch,
    NotifyCallback, ObjectHeaderDetail, PteLevel, SsdtEntry, SsdtTable,
};
use crate::text::{dec, hex_padded};
use crate::trapframe::KtrapFrame;
use crate::types::{PageTableEntry, VirtAddr};
use crate::view::builders;
use crate::view::{Node, View};
use crate::walk_laws::{
    ends_here, is_present, is_user, is_writable, law_bits_of_an_entry, no_execute, target_of,
};
use vstd::prelude::*;
use vstd::string::*;
use vstd::view::View as _;

verus! {

/// The value that stands last under a name, if any.
pub open spec fn found(fields: Seq<(Seq<char>, Node)>, name: Seq<char>) -> Option<Node>
    decreases fields.len(),
{
    if fields.len() == 0 {
        None
    } else if fields.last().0 == name {
        Some(fields.last().1)
    } else {
        found(fields.drop_last(), name)
    }
}

/// What an object holds under a name, if anything.
pub open spec fn at(node: Node, name: Seq<char>) -> Option<Node> {
    match node {
        Node::Object(fields) => found(fields, name),
        _ => None,
    }
}

/// How many fields an object has.
pub open spec fn width(node: Node) -> nat {
    match node {
        Node::Object(fields) => fields.len(),
        _ => 0,
    }
}

broadcast proof fn lemma_found(
    fields: Seq<(Seq<char>, Node)>,
    added: (Seq<char>, Node),
    name: Seq<char>,
)
    ensures
        #[trigger] found(fields.push(added), name) == (if added.0 == name {
            Some(added.1)
        } else {
            found(fields, name)
        }),
{
    assert(fields.push(added).drop_last() =~= fields);
}

/// A text that may be missing.
pub open spec fn words(s: Option<String>) -> Node {
    Node::OptStr(
        match s {
            Some(s) => Some(s@),
            None => None,
        },
    )
}

/// An address that may be missing.
pub open spec fn place(a: Option<VirtAddr>) -> Node {
    Node::OptHex(
        match a {
            Some(a) => Some(a.0),
            None => None,
        },
    )
}

/// A number that may be missing.
pub open spec fn count(n: Option<u64>) -> Node {
    Node::OptNum(n)
}

/// Whether a node is that of a stack location whose major function has this name.
pub open spec fn shows_io_stack(node: Node, s: IoStackLocationInfo, name: Seq<char>) -> bool {
    &&& width(node) == 8
    &&& at(node, "address"@) == Some(Node::Hex(s.address.0))
    &&& at(node, "major_function"@) == Some(Node::Num(s.major_function as u64))
    &&& at(node, "major_function_name"@) == Some(Node::Str("IRP_MJ_"@ + name))
    &&& at(node, "minor_function"@) == Some(Node::Num(s.minor_function as u64))
    &&& at(node, "device_object"@) == Some(Node::Hex(s.device_object.0))
    &&& at(node, "file_object"@) == Some(Node::Hex(s.file_object.0))
    &&& at(node, "completion_routine"@) == Some(Node::Hex(s.completion_routine.0))
    &&& at(node, "context"@) == Some(Node::Hex(s.context.0))
}

#[verifier::spinoff_prover]
proof fn lemma_io_stack(s: IoStackLocationInfo, name: Seq<char>)
    ensures
        shows_io_stack(builders::io_stack_node(s, name), s, name),
{
    broadcast use lemma_found;

    reveal_strlit("address");
    reveal_strlit("major_function");
    reveal_strlit("major_function_name");
    reveal_strlit("minor_function");
    reveal_strlit("device_object");
    reveal_strlit("file_object");
    reveal_strlit("completion_routine");
    reveal_strlit("context");
    assert("address"@.len() == 7);
    assert("major_function"@.len() == 14);
    assert("major_function_name"@.len() == 19);
    assert("minor_function"@.len() == 14);
    assert("device_object"@.len() == 13);
    assert("file_object"@.len() == 11);
    assert("completion_routine"@.len() == 18);
    assert("context"@.len() == 7);
    assert("address"@[0] != "context"@[0]);
    assert("major_function"@[1] != "minor_function"@[1]);
}

/// Whether a node is that of a request with this view of its stack location.
pub open spec fn shows_irp(node: Node, i: IrpInfo, stack: Node) -> bool {
    &&& width(node) == 13
    &&& at(node, "address"@) == Some(Node::Hex(i.address.0))
    &&& at(node, "type"@) == Some(Node::Num(i.irp_type as u64))
    &&& at(node, "size"@) == Some(Node::Num(i.size as u64))
    &&& at(node, "stack_count"@) == Some(Node::Num(i.stack_count as u64))
    &&& at(node, "current_location"@) == Some(Node::Num(i.current_location as u64))
    &&& at(node, "pending_returned"@) == Some(Node::Bool(i.pending_returned))
    &&& at(node, "requestor_mode"@) == Some(Node::Num(i.requestor_mode as u64))
    &&& at(node, "io_status"@) == Some(Node::OptHex(
        match i.io_status {
            Some(s) => Some(s as u64),
            None => None,
        },
    ))
    &&& at(node, "user_event"@) == Some(Node::Hex(i.user_event.0))
    &&& at(node, "user_buffer"@) == Some(Node::Hex(i.user_buffer.0))
    &&& at(node, "mdl_address"@) == Some(Node::Hex(i.mdl_address.0))
    &&& at(node, "thread"@) == Some(Node::Hex(i.thread.0))
    &&& at(node, "current_stack"@) == Some(stack)
}

#[verifier::spinoff_prover]
proof fn lemma_irp(i: IrpInfo, stack: Node)
    ensures
        shows_irp(builders::irp_node(i, stack), i, stack),
{
    broadcast use lemma_found;

    reveal_strlit("address");
    reveal_strlit("type");
    reveal_strlit("size");
    reveal_strlit("stack_count");
    reveal_strlit("current_location");
    reveal_strlit("pending_returned");
    reveal_strlit("requestor_mode");
    reveal_strlit("io_status");
    reveal_strlit("user_event");
    reveal_strlit("user_buffer");
    reveal_strlit("mdl_address");
    reveal_strlit("thread");
    reveal_strlit("current_stack");
    assert("address"@.len() == 7);
    assert("type"@.len() == 4);
    assert("size"@.len() == 4);
    assert("stack_count"@.len() == 11);
    assert("current_location"@.len() == 16);
    assert("pending_returned"@.len() == 16);
    assert("requestor_mode"@.len() == 14);
    assert("io_status"@.len() == 9);
    assert("user_event"@.len() == 10);
    assert("user_buffer"@.len() == 11);
    assert("mdl_address"@.len() == 11);
    assert("thread"@.len() == 6);
    assert("current_stack"@.len() == 13);
    assert("type"@[0] != "size"@[0]);
    assert("stack_count"@[0] != "user_buffer"@[0]);
    assert("stack_count"@[0] != "mdl_address"@[0]);
    assert("current_location"@[0] != "pending_returned"@[0]);
    assert("user_buffer"@[0] != "mdl_address"@[0]);
}

/// Whether a node is that of a device of a driver.
pub open spec fn shows_driver_device(node: Node, x: DriverDevice) -> bool {
    &&& width(node) == 6
    &&& at(node, "device"@) == Some(Node::Hex(x.device.0))
    &&& at(node, "device_type"@) == Some(Node::Num(x.device_type as u64))
    &&& at(node, "flags"@) == Some(Node::Num(x.flags as u64))
    &&& at(node, "characteristics"@) == Some(Node::Num(x.characteristics as u64))
    &&& at(node, "attached"@) == Some(Node::Hex(x.attached.0))
    &&& at(node, "next"@) == Some(Node::Hex(x.next.0))
}

#[verifier::spinoff_prover]
proof fn lemma_driver_device(x: DriverDevice)
    ensures
        shows_driver_device(builders::driver_device_node(x), x),
{
    broadcast use lemma_found;

    reveal_strlit("device");
    reveal_strlit("device_type");
    reveal_strlit("flags");
    reveal_strlit("characteristics");
    reveal_strlit("attached");
    reveal_strlit("next");
    assert("device"@.len() == 6);
    assert("device_type"@.len() == 11);
    assert("flags"@.len() == 5);
    assert("characteristics"@.len() == 15);
    assert("attached"@.len() == 8);
    assert("next"@.len() == 4);
}

/// Whether a node is that of the routine of a major function.
pub open spec fn shows_dispatch(
    node: Node,
    index: int,
    routine: VirtAddr,
    name: Seq<char>,
    symbol: Option<String>,
) -> bool {
    &&& width(node) == 4
    &&& at(node, "index"@) == Some(Node::Num(index as u64))
    &&& at(node, "name"@) == Some(Node::Str("IRP_MJ_"@ + name))
    &&& at(node, "routine"@) == Some(Node::Hex(routine.0))
    &&& at(node, "symbol"@) == Some(words(symbol))
}

#[verifier::spinoff_prover]
proof fn lemma_dispatch(index: int, routine: VirtAddr, name: Seq<char>, symbol: Option<String>)
    ensures
        shows_dispatch(
            builders::dispatch_node(index, routine, name, crate::text::text_opt(symbol)),
            index,
            routine,
            name,
            symbol,
        ),
{
    broadcast use lemma_found;

    reveal_strlit("index");
    reveal_strlit("name");
    reveal_strlit("routine");
    reveal_strlit("symbol");
    assert("index"@.len() == 5);
    assert("name"@.len() == 4);
    assert("routine"@.len() == 7);
    assert("symbol"@.len() == 6);
}

/// Whether a node is that of a driver object with these devices and routines.
pub open spec fn shows_driver_object(
    node: Node,
    d: DriverObjectDetail,
    devices: Seq<Node>,
    dispatch: Seq<Node>,
) -> bool {
    &&& width(node) == 9
    &&& at(node, "object"@) == Some(Node::Hex(d.object.0))
    &&& at(node, "via_pointer"@) == Some(Node::Bool(d.via_pointer))
    &&& at(node, "name"@) == Some(words(d.name))
    &&& at(node, "driver_start"@) == Some(Node::Hex(d.driver_start.0))
    &&& at(node, "driver_size"@) == Some(Node::Num(d.driver_size))
    &&& at(node, "driver_section"@) == Some(Node::Hex(d.driver_section.0))
    &&& at(node, "driver_unload"@) == Some(Node::Hex(d.driver_unload.0))
    &&& at(node, "devices"@) == Some(Node::List(devices))
    &&& at(node, "dispatch"@) == Some(Node::List(dispatch))
}

#[verifier::spinoff_prover]
proof fn lemma_driver_object(d: DriverObjectDetail, dispatch: Seq<Node>)
    ensures
        shows_driver_object(
            builders::driver_object_node(d, dispatch),
            d,
            d.device_chain@.map_values(|x: DriverDevice| builders::driver_device_node(x)),
            dispatch,
        ),
{
    broadcast use lemma_found;

    reveal_strlit("object");
    reveal_strlit("via_pointer");
    reveal_strlit("name");
    reveal_strlit("driver_start");
    reveal_strlit("driver_size");
    reveal_strlit("driver_section");
    reveal_strlit("driver_unload");
    reveal_strlit("devices");
    reveal_strlit("dispatch");
    assert("object"@.len() == 6);
    assert("via_pointer"@.len() == 11);
    assert("name"@.len() == 4);
    assert("driver_start"@.len() == 12);
    assert("driver_size"@.len() == 11);
    assert("driver_section"@.len() == 14);
    assert("driver_unload"@.len() == 13);
    assert("devices"@.len() == 7);
    assert("dispatch"@.len() == 8);
    assert("via_pointer"@[0] != "driver_size"@[0]);
}

/// Whether a node is that of a device of an attachment stack.
pub open spec fn shows_attached_device(node: Node, x: AttachedDevice) -> bool {
    &&& width(node) == 4
    &&& at(node, "device"@) == Some(Node::Hex(x.device.0))
    &&& at(node, "driver_object"@) == Some(Node::Hex(x.driver_object.0))
    &&& at(node, "device_type"@) == Some(Node::Num(x.device_type as u64))
    &&& at(node, "flags"@) == Some(Node::Num(x.flags as u64))
}

#[verifier::spinoff_prover]
proof fn lemma_attached_device(x: AttachedDevice)
    ensures
        shows_attached_device(builders::attached_device_node(x), x),
{
    broadcast use lemma_found;

    reveal_strlit("device");
    reveal_strlit("driver_object");
    reveal_strlit("device_type");
    reveal_strlit("flags");
    assert("device"@.len() == 6);
    assert("driver_object"@.len() == 13);
    assert("device_type"@.len() == 11);
    assert("flags"@.len() == 5);
}

/// Whether a node is that of a device object with this attachment stack.
pub open spec fn shows_device_object(node: Node, d: DeviceObjectDetail, stack: Seq<Node>) -> bool {
    &&& width(node) == 11
    &&& at(node, "object"@) == Some(Node::Hex(d.object.0))
    &&& at(node, "via_pointer"@) == Some(Node::Bool(d.via_pointer))
    &&& at(node, "device_type"@) == Some(Node::Num(d.device_type as u64))
    &&& at(node, "flags"@) == Some(Node::Num(d.flags as u64))
    &&& at(node, "characteristics"@) == Some(Node::Num(d.characteristics as u64))
    &&& at(node, "driver_object"@) == Some(Node::Hex(d.driver_object.0))
    &&& at(node, "attached_device"@) == Some(Node::Hex(d.attached_device.0))
    &&& at(node, "next_device"@) == Some(Node::Hex(d.next_device.0))
    &&& at(node, "current_irp"@) == Some(Node::Hex(d.current_irp.0))
    &&& at(node, "device_extension"@) == Some(Node::Hex(d.device_extension.0))
    &&& at(node, "attached_stack"@) == Some(Node::List(stack))
}

#[verifier::spinoff_prover]
proof fn lemma_device_object(d: DeviceObjectDetail)
    ensures
        shows_device_object(
            builders::device_object_node(d),
            d,
            d.attached_stack@.map_values(|x: AttachedDevice| builders::attached_device_node(x)),
        ),
{
    broadcast use lemma_found;

    reveal_strlit("object");
    reveal_strlit("via_pointer");
    reveal_strlit("device_type");
    reveal_strlit("flags");
    reveal_strlit("characteristics");
    reveal_strlit("driver_object");
    reveal_strlit("attached_device");
    reveal_strlit("next_device");
    reveal_strlit("current_irp");
    reveal_strlit("device_extension");
    reveal_strlit("attached_stack");
    assert("object"@.len() == 6);
    assert("via_pointer"@.len() == 11);
    assert("device_type"@.len() == 11);
    assert("flags"@.len() == 5);
    assert("characteristics"@.len() == 15);
    assert("driver_object"@.len() == 13);
    assert("attached_device"@.len() == 15);
    assert("next_device"@.len() == 11);
    assert("current_irp"@.len() == 11);
    assert("device_extension"@.len() == 16);
    assert("attached_stack"@.len() == 14);
    assert("via_pointer"@[0] != "device_type"@[0]);
    assert("via_pointer"@[0] != "next_device"@[0]);
    assert("via_pointer"@[0] != "current_irp"@[0]);
    assert("device_type"@[0] != "next_device"@[0]);
    assert("device_type"@[0] != "current_irp"@[0]);
    assert("characteristics"@[0] != "attached_device"@[0]);
    assert("next_device"@[0] != "current_irp"@[0]);
}

/// Whether a node is that of an object header.
pub open spec fn shows_object_header(node: Node, o: ObjectHeaderDetail) -> bool {
    &&& width(node) == 12
    &&& at(node, "input"@) == Some(Node::Hex(o.input.0))
    &&& at(node, "mode"@) == Some(Node::Str(o.mode@))
    &&& at(node, "header"@) == Some(Node::Hex(o.header.0))
    &&& at(node, "body"@) == Some(Node::Hex(o.body.0))
    &&& at(node, "pointer_count"@) == Some(Node::Int(o.pointer_count))
    &&& at(node, "handle_count"@) == Some(Node::Int(o.handle_count))
    &&& at(node, "type_index"@) == Some(count(o.type_index))
    &&& at(node, "type_object"@) == Some(place(o.type_object))
    &&& at(node, "type_name"@) == Some(words(o.kind_name))
    &&& at(node, "info_mask"@) == Some(count(
        match o.info_mask {
            Some(mask) => Some(mask as u64),
            None => None,
        },
    ))
    &&& at(node, "name_info"@) == Some(place(o.name_info))
    &&& at(node, "name"@) == Some(words(o.name))
}

#[verifier::spinoff_prover]
proof fn lemma_object_header(o: ObjectHeaderDetail)
    ensures
        shows_object_header(builders::object_header_node(o), o),
{
    broadcast use lemma_found;

    reveal_strlit("input");
    reveal_strlit("mode");
    reveal_strlit("header");
    reveal_strlit("body");
    reveal_strlit("pointer_count");
    reveal_strlit("handle_count");
    reveal_strlit("type_index");
    reveal_strlit("type_object");
    reveal_strlit("type_name");
    reveal_strlit("info_mask");
    reveal_strlit("name_info");
    reveal_strlit("name");
    assert("input"@.len() == 5);
    assert("mode"@.len() == 4);
    assert("header"@.len() == 6);
    assert("body"@.len() == 4);
    assert("pointer_count"@.len() == 13);
    assert("handle_count"@.len() == 12);
    assert("type_index"@.len() == 10);
    assert("type_object"@.len() == 11);
    assert("type_name"@.len() == 9);
    assert("info_mask"@.len() == 9);
    assert("name_info"@.len() == 9);
    assert("name"@.len() == 4);
    assert("mode"@[0] != "body"@[0]);
    assert("mode"@[0] != "name"@[0]);
    assert("body"@[0] != "name"@[0]);
    assert("type_name"@[0] != "info_mask"@[0]);
    assert("type_name"@[0] != "name_info"@[0]);
    assert("info_mask"@[0] != "name_info"@[0]);
}

/// Whether a node is that of a notification callback with this symbol.
pub open spec fn shows_notify_callback(
    node: Node,
    c: NotifyCallback,
    symbol: Option<String>,
) -> bool {
    &&& width(node) == 7
    &&& at(node, "kind"@) == Some(Node::Str(c.kind@))
    &&& at(node, "index"@) == Some(Node::Num(c.index as u64))
    &&& at(node, "function"@) == Some(Node::Hex(c.function.0))
    &&& at(node, "symbol"@) == Some(words(symbol))
    &&& at(node, "block"@) == Some(Node::Hex(c.block.0))
    &&& at(node, "raw"@) == Some(Node::Hex(c.raw.0))
    &&& at(node, "context"@) == Some(Node::Hex(c.context.0))
}

#[verifier::spinoff_prover]
proof fn lemma_notify_callback(c: NotifyCallback, symbol: Option<String>)
    ensures
        shows_notify_callback(
            builders::notify_callback_node(c, crate::text::text_opt(symbol)),
            c,
            symbol,
        ),
{
    broadcast use lemma_found;

    reveal_strlit("kind");
    reveal_strlit("index");
    reveal_strlit("function");
    reveal_strlit("symbol");
    reveal_strlit("block");
    reveal_strlit("raw");
    reveal_strlit("context");
    assert("kind"@.len() == 4);
    assert("index"@.len() == 5);
    assert("function"@.len() == 8);
    assert("symbol"@.len() == 6);
    assert("block"@.len() == 5);
    assert("raw"@.len() == 3);
    assert("context"@.len() == 7);
    assert("index"@[0] != "block"@[0]);
}

/// Whether a node is that of an entry of a system-service table.
pub open spec fn shows_ssdt_entry(node: Node, x: SsdtEntry) -> bool {
    &&& width(node) == 4
    &&& at(node, "index"@) == Some(Node::Num(x.index as u64))
    &&& at(node, "target"@) == Some(Node::Hex(x.target.0))
    &&& at(node, "symbol"@) == Some(words(x.symbol))
    &&& at(node, "module"@) == Some(words(x.module))
}

#[verifier::spinoff_prover]
proof fn lemma_ssdt_entry(x: SsdtEntry)
    ensures
        shows_ssdt_entry(builders::ssdt_entry_node(x), x),
{
    broadcast use lemma_found;

    reveal_strlit("index");
    reveal_strlit("target");
    reveal_strlit("symbol");
    reveal_strlit("module");
    assert("index"@.len() == 5);
    assert("target"@.len() == 6);
    assert("symbol"@.len() == 6);
    assert("module"@.len() == 6);
    assert("target"@[0] != "symbol"@[0]);
    assert("target"@[0] != "module"@[0]);
    assert("symbol"@[0] != "module"@[0]);
}

/// Whether a node is that of a system-service table with these entries.
pub open spec fn shows_ssdt_table(node: Node, t: SsdtTable, entries: Seq<Node>) -> bool {
    &&& width(node) == 4
    &&& at(node, "label"@) == Some(Node::Str(t.label@))
    &&& at(node, "base"@) == Some(Node::Hex(t.base.0))
    &&& at(node, "limit"@) == Some(Node::Num(t.limit as u64))
    &&& at(node, "entries"@) == Some(Node::List(entries))
}

#[verifier::spinoff_prover]
proof fn lemma_ssdt_table(t: SsdtTable)
    ensures
        shows_ssdt_table(
            builders::ssdt_table_node(t),
            t,
            t.entries@.map_values(|x: SsdtEntry| builders::ssdt_entry_node(x)),
        ),
{
    broadcast use lemma_found;

    reveal_strlit("label");
    reveal_strlit("base");
    reveal_strlit("limit");
    reveal_strlit("entries");
    assert("label"@.len() == 5);
    assert("base"@.len() == 4);
    assert("limit"@.len() == 5);
    assert("entries"@.len() == 7);
    assert("label"@[1] != "limit"@[1]);
}

/// Whether a node is that of an in-flight request whose thread is in this state for
/// this reason.
pub open spec fn shows_irp_hit(
    node: Node,
    h: IrpHit,
    state: Option<String>,
    reason: Option<String>,
) -> bool {
    &&& width(node) == 11
    &&& at(node, "irp"@) == Some(Node::Hex(h.irp.0))
    &&& at(node, "source"@) == Some(Node::Str(h.source@))
    &&& at(node, "stack_count"@) == Some(Node::Num(h.stack_count as u64))
    &&& at(node, "current_location"@) == Some(Node::Num(h.current_location as u64))
    &&& at(node, "pid"@) == Some(count(h.pid))
    &&& at(node, "tid"@) == Some(count(h.tid))
    &&& at(node, "ethread"@) == Some(place(h.ethread))
    &&& at(node, "state"@) == Some(words(state))
    &&& at(node, "wait_reason"@) == Some(words(reason))
    &&& at(node, "driver"@) == Some(words(h.driver))
    &&& at(node, "device"@) == Some(place(h.device))
}

#[verifier::spinoff_prover]
proof fn lemma_irp_hit(h: IrpHit, state: Option<String>, reason: Option<String>)
    ensures
        shows_irp_hit(
            builders::irp_hit_node(h, crate::text::text_opt(state), crate::text::text_opt(reason)),
            h,
            state,
            reason,
        ),
{
    broadcast use lemma_found;

    reveal_strlit("irp");
    reveal_strlit("source");
    reveal_strlit("stack_count");
    reveal_strlit("current_location");
    reveal_strlit("pid");
    reveal_strlit("tid");
    reveal_strlit("ethread");
    reveal_strlit("state");
    reveal_strlit("wait_reason");
    reveal_strlit("driver");
    reveal_strlit("device");
    assert("irp"@.len() == 3);
    assert("source"@.len() == 6);
    assert("stack_count"@.len() == 11);
    assert("current_location"@.len() == 16);
    assert("pid"@.len() == 3);
    assert("tid"@.len() == 3);
    assert("ethread"@.len() == 7);
    assert("state"@.len() == 5);
    assert("wait_reason"@.len() == 11);
    assert("driver"@.len() == 6);
    assert("device"@.len() == 6);
    assert("irp"@[0] != "pid"@[0]);
    assert("irp"@[0] != "tid"@[0]);
    assert("source"@[0] != "driver"@[0]);
    assert("source"@[0] != "device"@[0]);
    assert("stack_count"@[0] != "wait_reason"@[0]);
    assert("pid"@[0] != "tid"@[0]);
    assert("driver"@[1] != "device"@[1]);
}

/// Whether a node is that of the module that an address lies in, null where it lies
/// in none.
pub open spec fn shows_module(node: Node, m: AddressModule) -> bool {
    &&& width(node) == 4
    &&& at(node, "name"@) == Some(Node::Str(m.name@))
    &&& at(node, "base"@) == Some(Node::Hex(m.base.0))
    &&& at(node, "size"@) == Some(Node::Num(m.size as u64))
    &&& at(node, "offset"@) == Some(Node::Hex(m.offset))
}

#[verifier::spinoff_prover]
proof fn lemma_module(m: AddressModule)
    ensures
        shows_module(builders::address_module_node(m), m),
{
    broadcast use lemma_found;

    reveal_strlit("name");
    reveal_strlit("base");
    reveal_strlit("size");
    reveal_strlit("offset");
    assert("name"@.len() == 4);
    assert("base"@.len() == 4);
    assert("size"@.len() == 4);
    assert("offset"@.len() == 6);
    assert("name"@[0] != "base"@[0]);
    assert("name"@[0] != "size"@[0]);
    assert("base"@[0] != "size"@[0]);
}

/// Whether a node is that of the region that an address lies in.
pub open spec fn shows_region(node: Node, g: MemoryRegionInfo) -> bool {
    &&& width(node) == 7
    &&& at(node, "start"@) == Some(Node::Hex(g.start.0))
    &&& at(node, "end"@) == Some(Node::Hex(g.end.0))
    &&& at(node, "protection"@) == Some(count(g.protection))
    &&& at(node, "vad_type"@) == Some(count(g.vad_type))
    &&& at(node, "private_memory"@) == Some(Node::OptBool(g.private_memory))
    &&& at(node, "commit_charge"@) == Some(count(g.commit_charge))
    &&& at(node, "details"@) == Some(words(g.details))
}

#[verifier::spinoff_prover]
proof fn lemma_region(g: MemoryRegionInfo)
    ensures
        shows_region(builders::memory_region_node(g), g),
{
    broadcast use lemma_found;

    reveal_strlit("start");
    reveal_strlit("end");
    reveal_strlit("protection");
    reveal_strlit("vad_type");
    reveal_strlit("private_memory");
    reveal_strlit("commit_charge");
    reveal_strlit("details");
    assert("start"@.len() == 5);
    assert("end"@.len() == 3);
    assert("protection"@.len() == 10);
    assert("vad_type"@.len() == 8);
    assert("private_memory"@.len() == 14);
    assert("commit_charge"@.len() == 13);
    assert("details"@.len() == 7);
}

/// Whether a node shows the module that an address lies in: null where it lies in
/// none.
pub open spec fn shows_module_or_null(node: Node, module: Option<AddressModule>) -> bool {
    match module {
        Some(m) => shows_module(node, m),
        None => node is Null,
    }
}

/// Whether a node shows the region that an address lies in: null where it lies in
/// none.
pub open spec fn shows_region_or_null(node: Node, region: Option<MemoryRegionInfo>) -> bool {
    match region {
        Some(g) => shows_region(node, g),
        None => node is Null,
    }
}

/// Whether a node says what an address belongs to.
pub open spec fn shows_address_description(node: Node, d: AddressDescription) -> bool {
    &&& width(node) == 7
    &&& at(node, "address"@) == Some(Node::Hex(d.address.0))
    &&& at(node, "dtb"@) == Some(Node::Hex(d.dtb))
    &&& at(node, "kind"@) == Some(Node::Str(d.kind@))
    &&& at(node, "module"@) matches Some(value) && shows_module_or_null(value, d.module)
    &&& at(node, "section"@) == Some(words(d.section))
    &&& at(node, "va_type"@) == Some(words(d.va_type))
    &&& at(node, "region"@) matches Some(value) && shows_region_or_null(value, d.region)
}

/// Whether a node is that of a hit of a memory search.
pub open spec fn shows_memory_search_match(node: Node, m: MemorySearchMatch) -> bool {
    &&& width(node) == 8
    &&& at(node, "address"@) == Some(Node::Hex(m.address.0))
    &&& at(node, "offset"@) == Some(Node::Hex(m.offset))
    &&& at(node, "symbol"@) == Some(words(m.symbol))
    &&& at(node, "kind"@) == Some(Node::Str(m.description.kind@))
    &&& at(node, "module"@) matches Some(value) && shows_module_or_null(value, m.description.module)
    &&& at(node, "section"@) == Some(words(m.description.section))
    &&& at(node, "va_type"@) == Some(words(m.description.va_type))
    &&& at(node, "region"@) matches Some(value) && shows_region_or_null(value, m.description.region)
}

/// Whether a node is that of a page-table level whose flags are shown like this.
pub open spec fn shows_pte_level(node: Node, pte: PteLevel, shown: Seq<char>) -> bool {
    &&& width(node) == 10
    &&& at(node, "level"@) == Some(Node::Str(pte.name@))
    &&& at(node, "address"@) == Some(Node::Hex(pte.address.0))
    &&& at(node, "value"@) == Some(Node::Hex(pte.value.0))
    &&& at(node, "pfn"@) == Some(Node::Hex((target_of(pte.value.0 as int) / 0x1000) as u64))
    &&& at(node, "present"@) == Some(Node::Bool(is_present(pte.value.0 as int)))
    &&& at(node, "large_page"@) == Some(Node::Bool(ends_here(pte.value.0 as int)))
    &&& at(node, "writable"@) == Some(Node::Bool(is_writable(pte.value.0 as int)))
    &&& at(node, "user"@) == Some(Node::Bool(is_user(pte.value.0 as int)))
    &&& at(node, "nx"@) == Some(Node::Bool(no_execute(pte.value.0 as int)))
    &&& at(node, "flags"@) == Some(Node::Str(shown))
}

/// Whether a node is that of a parameter of a bugcheck.
pub open spec fn shows_bugcheck_arg(node: Node, number: int, arg: BugcheckArg) -> bool {
    &&& width(node) == 3
    &&& at(node, "index"@) == Some(Node::Num(number as u64))
    &&& at(node, "value"@) == Some(Node::Hex(arg.value))
    &&& at(node, "description"@) == Some(Node::Str(arg.description@))
}

#[verifier::spinoff_prover]
proof fn lemma_bugcheck_arg(number: u64, arg: BugcheckArg)
    ensures
        shows_bugcheck_arg(builders::bugcheck_arg_node(number, arg), number as int, arg),
{
    broadcast use lemma_found;

    reveal_strlit("index");
    reveal_strlit("value");
    reveal_strlit("description");
    assert("index"@.len() == 5);
    assert("value"@.len() == 5);
    assert("description"@.len() == 11);
    assert("index"@[0] != "value"@[0]);
}

/// Whether a node is that of the instruction that a bugcheck blames.
pub open spec fn shows_bugcheck_fault(node: Node, f: BugcheckFault) -> bool {
    &&& width(node) == 3
    &&& at(node, "ip"@) == Some(Node::Hex(f.ip))
    &&& at(node, "symbol"@) == Some(Node::Str(f.symbol@))
    &&& at(node, "driver"@) == Some(words(f.driver))
}

#[verifier::spinoff_prover]
proof fn lemma_bugcheck_fault(f: BugcheckFault)
    ensures
        shows_bugcheck_fault(builders::bugcheck_fault_node(f), f),
{
    broadcast use lemma_found;

    reveal_strlit("ip");
    reveal_strlit("symbol");
    reveal_strlit("driver");
    assert("ip"@.len() == 2);
    assert("symbol"@.len() == 6);
    assert("driver"@.len() == 6);
    assert("symbol"@[0] != "driver"@[0]);
}

/// Whether a node is that of the registers of a trap frame.
pub open spec fn shows_ktrap_frame(node: Node, frame: KtrapFrame) -> bool {
    &&& width(node) == 19
    &&& at(node, "rax"@) == Some(Node::Hex(frame.rax))
    &&& at(node, "rbx"@) == Some(Node::Hex(frame.rbx))
    &&& at(node, "rcx"@) == Some(Node::Hex(frame.rcx))
    &&& at(node, "rdx"@) == Some(Node::Hex(frame.rdx))
    &&& at(node, "rsi"@) == Some(Node::Hex(frame.rsi))
    &&& at(node, "rdi"@) == Some(Node::Hex(frame.rdi))
    &&& at(node, "rbp"@) == Some(Node::Hex(frame.rbp))
    &&& at(node, "rsp"@) == Some(Node::Hex(frame.rsp))
    &&& at(node, "r8"@) == Some(Node::Hex(frame.r8))
    &&& at(node, "r9"@) == Some(Node::Hex(frame.r9))
    &&& at(node, "r10"@) == Some(Node::Hex(frame.r10))
    &&& at(node, "r11"@) == Some(Node::Hex(frame.r11))
    &&& at(node, "rip"@) == Some(Node::Hex(frame.rip))
    &&& at(node, "cs"@) == Some(Node::Hex(frame.cs as u64))
    &&& at(node, "ss"@) == Some(Node::Hex(frame.ss as u64))
    &&& at(node, "eflags"@) == Some(Node::Hex(frame.eflags as u64))
    &&& at(node, "error_code"@) == Some(Node::Hex(frame.error_code))
    &&& at(node, "previous_mode"@) == Some(Node::Num(frame.previous_mode as u64))
    &&& at(node, "previous_irql"@) == Some(Node::Num(frame.previous_irql as u64))
}

#[verifier::spinoff_prover]
proof fn lemma_ktrap_frame(frame: KtrapFrame)
    ensures
        shows_ktrap_frame(builders::ktrap_frame_node(frame), frame),
{
    broadcast use lemma_found;

    reveal_strlit("rax");
    reveal_strlit("rbx");
    reveal_strlit("rcx");
    reveal_strlit("rdx");
    reveal_strlit("rsi");
    reveal_strlit("rdi");
    reveal_strlit("rbp");
    reveal_strlit("rsp");
    reveal_strlit("r8");
    reveal_strlit("r9");
    reveal_strlit("r10");
    reveal_strlit("r11");
    reveal_strlit("rip");
    reveal_strlit("cs");
    reveal_strlit("ss");
    reveal_strlit("eflags");
    reveal_strlit("error_code");
    reveal_strlit("previous_mode");
    reveal_strlit("previous_irql");
    assert("rax"@.len() == 3);
    assert("rbx"@.len() == 3);
    assert("rcx"@.len() == 3);
    assert("rdx"@.len() == 3);
    assert("rsi"@.len() == 3);
    assert("rdi"@.len() == 3);
    assert("rbp"@.len() == 3);
    assert("rsp"@.len() == 3);
    assert("r8"@.len() == 2);
    assert("r9"@.len() == 2);
    assert("r10"@.len() == 3);
    assert("r11"@.len() == 3);
    assert("rip"@.len() == 3);
    assert("cs"@.len() == 2);
    assert("ss"@.len() == 2);
    assert("eflags"@.len() == 6);
    assert("error_code"@.len() == 10);
    assert("previous_mode"@.len() == 13);
    assert("previous_irql"@.len() == 13);
    assert("rax"@[1] != "rbx"@[1]);
    assert("rax"@[1] != "rcx"@[1]);
    assert("rax"@[1] != "rdx"@[1]);
    assert("rax"@[1] != "rsi"@[1]);
    assert("rax"@[1] != "rdi"@[1]);
    assert("rax"@[1] != "rbp"@[1]);
    assert("rax"@[1] != "rsp"@[1]);
    assert("rax"@[1] != "r10"@[1]);
    assert("rax"@[1] != "r11"@[1]);
    assert("rax"@[1] != "rip"@[1]);
    assert("rbx"@[1] != "rcx"@[1]);
    assert("rbx"@[1] != "rdx"@[1]);
    assert("rbx"@[1] != "rsi"@[1]);
    assert("rbx"@[1] != "rdi"@[1]);
    assert("rbx"@[2] != "rbp"@[2]);
    assert("rbx"@[1] != "rsp"@[1]);
    assert("rbx"@[1] != "r10"@[1]);
    assert("rbx"@[1] != "r11"@[1]);
    assert("rbx"@[1] != "rip"@[1]);
    assert("rcx"@[1] != "rdx"@[1]);
    assert("rcx"@[1] != "rsi"@[1]);
    assert("rcx"@[1] != "rdi"@[1]);
    assert("rcx"@[1] != "rbp"@[1]);
    assert("rcx"@[1] != "rsp"@[1]);
    assert("rcx"@[1] != "r10"@[1]);
    assert("rcx"@[1] != "r11"@[1]);
    assert("rcx"@[1] != "rip"@[1]);
    assert("rdx"@[1] != "rsi"@[1]);
    assert("rdx"@[2] != "rdi"@[2]);
    assert("rdx"@[1] != "rbp"@[1]);
    assert("rdx"@[1] != "rsp"@[1]);
    assert("rdx"@[1] != "r10"@[1]);
    assert("rdx"@[1] != "r11"@[1]);
    assert("rdx"@[1] != "rip"@[1]);
    assert("rsi"@[1] != "rdi"@[1]);
    assert("rsi"@[1] != "rbp"@[1]);
    assert("rsi"@[2] != "rsp"@[2]);
    assert("rsi"@[1] != "r10"@[1]);
    assert("rsi"@[1] != "r11"@[1]);
    assert("rsi"@[1] != "rip"@[1]);
    assert("rdi"@[1] != "rbp"@[1]);
    assert("rdi"@[1] != "rsp"@[1]);
    assert("rdi"@[1] != "r10"@[1]);
    assert("rdi"@[1] != "r11"@[1]);
    assert("rdi"@[1] != "rip"@[1]);
    assert("rbp"@[1] != "rsp"@[1]);
    assert("rbp"@[1] != "r10"@[1]);
    assert("rbp"@[1] != "r11"@[1]);
    assert("rbp"@[1] != "rip"@[1]);
    assert("rsp"@[1] != "r10"@[1]);
    assert("rsp"@[1] != "r11"@[1]);
    assert("rsp"@[1] != "rip"@[1]);
    assert("r8"@[1] != "r9"@[1]);
    assert("r8"@[0] != "cs"@[0]);
    assert("r8"@[0] != "ss"@[0]);
    assert("r9"@[0] != "cs"@[0]);
    assert("r9"@[0] != "ss"@[0]);
    assert("r10"@[2] != "r11"@[2]);
    assert("r10"@[1] != "rip"@[1]);
    assert("r11"@[1] != "rip"@[1]);
    assert("cs"@[0] != "ss"@[0]);
    assert("previous_mode"@[9] != "previous_irql"@[9]);
}

/// Whether a node is that of a trap frame whose `rip` has this symbol.
pub open spec fn shows_trap_frame(
    node: Node,
    frame: KtrapFrame,
    rip_symbol: Option<String>,
) -> bool {
    &&& width(node) == 3
    &&& at(node, "address"@) == Some(Node::Hex(frame.address))
    &&& at(node, "rip_symbol"@) == Some(words(rip_symbol))
    &&& at(node, "frame"@) matches Some(value) && shows_ktrap_frame(value, frame)
}

/// Whether a node is that of a trap frame that a bugcheck carries.
pub open spec fn shows_bugcheck_trap_frame(node: Node, tf: BugcheckTrapFrame) -> bool {
    &&& width(node) == 4
    &&& at(node, "address"@) == Some(Node::Hex(tf.address))
    &&& at(node, "rip_symbol"@) == Some(words(tf.rip_symbol))
    &&& at(node, "frame"@) matches Some(value) && (match tf.frame {
        Some(frame) => shows_ktrap_frame(value, frame),
        None => value is Null,
    })
    &&& at(node, "error"@) == Some(words(tf.error))
}

/// Whether a node is that of a bugcheck with these parameters and trap frames.
pub open spec fn shows_bugcheck(
    node: Node,
    a: BugcheckAnalysis,
    args: Seq<Node>,
    frames: Seq<Node>,
) -> bool {
    &&& width(node) == 9
    &&& at(node, "code"@) == Some(Node::Num(a.code as u64))
    &&& at(node, "code_hex"@) == Some(Node::Str("0x"@ + hex_padded(a.code as nat, 8)))
    &&& at(node, "name"@) == Some(Node::Str(a.name@))
    &&& at(node, "description"@) == Some(words(a.description))
    &&& at(node, "driver"@) == Some(words(a.driver))
    &&& at(node, "source"@) == Some(words(a.source))
    &&& at(node, "args"@) == Some(Node::List(args))
    &&& at(node, "fault"@) matches Some(value) && (match a.fault {
        Some(f) => shows_bugcheck_fault(value, f),
        None => value is Null,
    })
    &&& at(node, "trap_frames"@) == Some(Node::List(frames))
}

/// Whose a breakpoint is: everyone's, or one process's.
pub open spec fn owner(scope: BreakpointScope) -> Seq<char> {
    match scope {
        BreakpointScope::Kernel => "global"@,
        BreakpointScope::Process { pid, dtb, name } => name@ + " ("@ + dec(pid as nat) + ")"@,
    }
}

/// How a data watchpoint watches: nothing for a code breakpoint, also one in a
/// debug register.
pub open spec fn watches(hardware: Option<HardwareBreakpoint>) -> Option<Seq<char>> {
    match hardware {
        Some(hw) => match hw.access {
            HwBreakpointAccess::Write => Some("write"@),
            HwBreakpointAccess::ReadWrite => Some("read_write"@),
            HwBreakpointAccess::Execute => None,
        },
        None => None,
    }
}

/// Whether a node is that of a breakpoint.
pub open spec fn shows_breakpoint<E>(node: Node, bp: Breakpoint<E>) -> bool {
    &&& width(node) == 9
    &&& at(node, "id"@) == Some(Node::Num(bp.id as u64))
    &&& at(node, "address"@) == Some(Node::Hex(bp.address.0))
    &&& at(node, "enabled"@) == Some(Node::Bool(bp.enabled))
    &&& at(node, "symbol"@) == Some(words(bp.symbol))
    &&& at(node, "scope"@) == Some(Node::Str(owner(bp.scope)))
    &&& at(node, "condition"@) == Some(words(bp.condition))
    &&& at(node, "temporary"@) == Some(Node::Bool(bp.temporary))
    &&& at(node, "watch_access"@) == Some(Node::OptStr(watches(bp.hardware)))
    &&& at(node, "watch_length"@) == Some(count(
        match bp.hardware {
            Some(hw) if watches(bp.hardware) is Some => Some(hw.len as u64),
            _ => None,
        },
    ))
}

/// A breakpoint stands field by field under the names of its parts.
#[verifier::spinoff_prover]
pub proof fn law_breakpoint<E>(bp: Breakpoint<E>, r: View)
    requires
        call_ensures(builders::breakpoint::<E>, (&bp,), r),
    ensures
        shows_breakpoint(r.shape(), bp),
{
    broadcast use lemma_found;

    reveal_strlit("id");
    reveal_strlit("address");
    reveal_strlit("enabled");
    reveal_strlit("symbol");
    reveal_strlit("scope");
    reveal_strlit("condition");
    reveal_strlit("temporary");
    reveal_strlit("watch_access");
    reveal_strlit("watch_length");
    assert("id"@.len() == 2);
    assert("address"@.len() == 7);
    assert("enabled"@.len() == 7);
    assert("symbol"@.len() == 6);
    assert("scope"@.len() == 5);
    assert("condition"@.len() == 9);
    assert("temporary"@.len() == 9);
    assert("watch_access"@.len() == 12);
    assert("watch_length"@.len() == 12);
    assert("address"@[0] != "enabled"@[0]);
    assert("condition"@[0] != "temporary"@[0]);
    assert("watch_access"@[6] != "watch_length"@[6]);
}

/// Two breakpoints that differ only in their condition have views that differ only in
/// the field "condition".
#[verifier::spinoff_prover]
pub proof fn law_a_changed_condition_shows_only_there<E>(
    one: Breakpoint<E>,
    other: Breakpoint<E>,
    r: View,
    s: View,
)
    requires
        other == (Breakpoint { condition: other.condition, ..one }),
        call_ensures(builders::breakpoint::<E>, (&one,), r),
        call_ensures(builders::breakpoint::<E>, (&other,), s),
    ensures
        forall|name: Seq<char>|
            name != "condition"@ ==> #[trigger] at(r.shape(), name) == at(s.shape(), name),
        at(r.shape(), "condition"@) == Some(words(one.condition)),
        at(s.shape(), "condition"@) == Some(words(other.condition)),
{
    broadcast use lemma_found;

    law_breakpoint(one, r);
    law_breakpoint(other, s);
}

/// Two breakpoints that differ only in their symbol have views that differ only in the
/// field "symbol".
#[verifier::spinoff_prover]
pub proof fn law_a_changed_symbol_shows_only_there<E>(
    one: Breakpoint<E>,
    other: Breakpoint<E>,
    r: View,
    s: View,
)
    requires
        other == (Breakpoint { symbol: other.symbol, ..one }),
        call_ensures(builders::breakpoint::<E>, (&one,), r),
        call_ensures(builders::breakpoint::<E>, (&other,), s),
    ensures
        forall|name: Seq<char>|
            name != "symbol"@ ==> #[trigger] at(r.shape(), name) == at(s.shape(), name),
        at(r.shape(), "symbol"@) == Some(words(one.symbol)),
        at(s.shape(), "symbol"@) == Some(words(other.symbol)),
{
    broadcast use lemma_found;

    law_breakpoint(one, r);
    law_breakpoint(other, s);
}

/// A request stands field by field under the names of its parts, its stack location
/// with the name that was given for its major function.
#[verifier::spinoff_prover]
pub proof fn law_irp<N: FnOnce(u8) -> String>(i: IrpInfo, name: N, r: View)
    requires
        call_ensures(builders::irp::<N>, (&i, name), r),
    ensures
        exists|stack: Node| #[trigger]
            shows_irp(r.shape(), i, stack) && match i.current_stack {
                None => stack is Null,
                Some(s) => exists|named: String| #[trigger]
                    call_ensures(
                        name,
                        (s.major_function,),
                        named) && shows_io_stack(stack,
                        s,
                        named@,
                    ),
            },
{
    match i.current_stack {
        None => {
            lemma_irp(i, Node::Null);
        },
        Some(s) => {
            let named = choose|named: String| #[trigger]
                call_ensures(name, (s.major_function,), named) && r.shape() == builders::irp_node(
                    i,
                    builders::io_stack_node(s, named@),
                );
            lemma_io_stack(s, named@);
            lemma_irp(i, builders::io_stack_node(s, named@));
        },
    }
}

/// Whether a node is that of the routine of a major function, with a name and a symbol
/// that the two functions may give.
pub open spec fn shows_routine<N: Fn(u8) -> String, S: Fn(VirtAddr) -> Option<String>>(
    node: Node,
    index: int,
    routine: VirtAddr,
    name: N,
    symbol: S,
) -> bool {
    exists|named: String, found: Option<String>|
        {
            &&& #[trigger] call_ensures(name, (index as u8,), named)
            &&& #[trigger] call_ensures(symbol, (routine,), found)
            &&& shows_dispatch(node, index, routine, named@, found)
        }
}

/// A driver object stands field by field under the names of its parts: its devices in
/// their order, and for each major function, by its number, the name that was given for
/// that number, its routine, and the symbol that was given for that routine.
#[verifier::spinoff_prover]
pub proof fn law_driver_object<
    N: Fn(u8) -> String,
    S: Fn(VirtAddr) -> Option<String>,
>(d: DriverObjectDetail, name: N, symbol: S, r: View)
    requires
        call_ensures(builders::driver_object::<N, S>, (&d, name, symbol), r),
    ensures
        exists|devices: Seq<Node>, dispatch: Seq<Node>|
            {
                &&& #[trigger] shows_driver_object(r.shape(), d, devices, dispatch)
                &&& devices.len() == d.device_chain@.len()
                &&& forall|i: int|
                    0 <= i < devices.len() ==> shows_driver_device(
                        #[trigger] devices[i],
                        d.device_chain@[i],
                    )
                &&& dispatch.len() == d.dispatch@.len()
                &&& forall|i: int|
                    0 <= i < dispatch.len() ==> shows_routine(
                        #[trigger] dispatch[i],
                        i,
                        d.dispatch@[i],
                        name,
                        symbol,
                    )
            },
{
    let (names, symbols) = choose|names: Seq<String>, symbols: Seq<Option<String>>|
        {
            &&& #[trigger] builders::may_resolve(d.dispatch@, name, symbol, names, symbols)
            &&& names.len() == d.dispatch@.len()
            &&& r.shape() == builders::driver_object_node(
                d,
                builders::dispatch_nodes(d.dispatch@, names, symbols),
            )
        };
    let devices = d.device_chain@.map_values(|x: DriverDevice| builders::driver_device_node(x));
    let dispatch = builders::dispatch_nodes(d.dispatch@, names, symbols);
    lemma_driver_object(d, dispatch);
    assert forall|i: int| 0 <= i < devices.len() implies shows_driver_device(
        #[trigger] devices[i],
        d.device_chain@[i],
    ) by {
        lemma_driver_device(d.device_chain@[i]);
    }
    assert forall|i: int| 0 <= i < dispatch.len() implies shows_routine(
        #[trigger] dispatch[i],
        i,
        d.dispatch@[i],
        name,
        symbol,
    ) by {
        lemma_dispatch(i, d.dispatch@[i], names[i]@, symbols[i]);
        assert(call_ensures(name, (i as u8,), names[i]));
        assert(call_ensures(symbol, (d.dispatch@[i],), symbols[i]));
    }
}

/// A device object stands field by field under the names of its parts, the devices
/// attached to it in their order.
#[verifier::spinoff_prover]
pub proof fn law_device_object(d: DeviceObjectDetail, r: View)
    requires
        call_ensures(builders::device_object, (&d,), r),
    ensures
        exists|stack: Seq<Node>|
            {
                &&& #[trigger] shows_device_object(r.shape(), d, stack)
                &&& stack.len() == d.attached_stack@.len()
                &&& forall|i: int| 0 <= i < stack.len() ==> shows_attached_device(#[trigger] stack[i], d.attached_stack@[i])
            },
{
    let stack = d.attached_stack@.map_values(|x: AttachedDevice| builders::attached_device_node(x));
    lemma_device_object(d);
    assert forall|i: int| 0 <= i < stack.len() implies shows_attached_device(
        #[trigger] stack[i],
        d.attached_stack@[i],
    ) by {
        lemma_attached_device(d.attached_stack@[i]);
    }
}

/// A system-service table stands field by field under the names of its parts, its
/// entries in their order.
#[verifier::spinoff_prover]
pub proof fn law_ssdt_table(t: SsdtTable, r: View)
    requires
        call_ensures(builders::ssdt_table, (&t,), r),
    ensures
        exists|entries: Seq<Node>|
            {
                &&& #[trigger] shows_ssdt_table(r.shape(), t, entries)
                &&& entries.len() == t.entries@.len()
                &&& forall|i: int| 0 <= i < entries.len() ==> shows_ssdt_entry(#[trigger] entries[i], t.entries@[i])
            },
{
    let entries = t.entries@.map_values(|x: SsdtEntry| builders::ssdt_entry_node(x));
    lemma_ssdt_table(t);
    assert forall|i: int| 0 <= i < entries.len() implies shows_ssdt_entry(
        #[trigger] entries[i],
        t.entries@[i],
    ) by {
        lemma_ssdt_entry(t.entries@[i]);
    }
}

/// An object header stands field by field under the names of its parts.
#[verifier::spinoff_prover]
pub proof fn law_object_header(o: ObjectHeaderDetail, r: View)
    requires
        call_ensures(builders::object_header, (&o,), r),
    ensures
        shows_object_header(r.shape(), o),
{
    lemma_object_header(o);
}

/// A notification callback stands field by field under the names of its parts, with the
/// symbol that was given for it.
#[verifier::spinoff_prover]
pub proof fn law_notify_callback(c: NotifyCallback, symbol: Option<String>, r: View)
    requires
        call_ensures(builders::notify_callback, (&c, symbol), r),
    ensures
        shows_notify_callback(r.shape(), c, symbol),
{
    lemma_notify_callback(c, symbol);
}

/// An in-flight request stands field by field under the names of its parts: its state
/// and its wait reason under the names given for these two numbers, null where it has
/// none.
#[verifier::spinoff_prover]
pub proof fn law_irp_hit<F: FnOnce(
    u8) -> String, G: FnOnce(u8) -> String>(h: IrpHit, state_name: F, reason_name: G, r: View,
)
    requires
        call_ensures(builders::irp_hit::<F, G>, (&h, state_name, reason_name), r),
    ensures
        exists|state: Option<String>, reason: Option<String>|
            {
                &&& #[trigger] shows_irp_hit(r.shape(), h, state, reason)
                &&& match h.state {
                    Some(n) => state matches Some(s) && call_ensures(state_name, (n,), s),
                    None => state is None,
                }
                &&& match h.wait_reason {
                    Some(n) => reason matches Some(s) && call_ensures(reason_name, (n,), s),
                    None => reason is None,
                }
            },
{
    let (state, reason) = choose|state: Option<String>, reason: Option<String>|
        {
            &&& #[trigger] builders::may_name(h.state, state_name, state)
            &&& #[trigger] builders::may_name(h.wait_reason, reason_name, reason)
            &&& r.shape() == builders::irp_hit_node(
                h,
                crate::text::text_opt(state),
                crate::text::text_opt(reason),
            )
        };
    lemma_irp_hit(h, state, reason);
}

/// What an address belongs to stands field by field under the names of its parts, the
/// module and the region null where it lies in none.
#[verifier::spinoff_prover]
pub proof fn law_address_description(d: AddressDescription, r: View)
    requires
        call_ensures(builders::address_description, (&d,), r),
    ensures
        shows_address_description(r.shape(), d),
{
    broadcast use lemma_found;

    reveal_strlit("address");
    reveal_strlit("dtb");
    reveal_strlit("kind");
    reveal_strlit("module");
    reveal_strlit("section");
    reveal_strlit("va_type");
    reveal_strlit("region");
    assert("address"@.len() == 7);
    assert("dtb"@.len() == 3);
    assert("kind"@.len() == 4);
    assert("module"@.len() == 6);
    assert("section"@.len() == 7);
    assert("va_type"@.len() == 7);
    assert("region"@.len() == 6);
    assert("address"@[0] != "section"@[0]);
    assert("address"@[0] != "va_type"@[0]);
    assert("module"@[0] != "region"@[0]);
    assert("section"@[0] != "va_type"@[0]);
    if let Some(m) = d.module {
        lemma_module(m);
    }
    if let Some(g) = d.region {
        lemma_region(g);
    }
}

/// A hit of a memory search stands field by field under the names of its parts.
#[verifier::spinoff_prover]
pub proof fn law_memory_search_match(m: MemorySearchMatch, r: View)
    requires
        call_ensures(builders::memory_search_match, (&m,), r),
    ensures
        shows_memory_search_match(r.shape(), m),
{
    broadcast use lemma_found;

    reveal_strlit("address");
    reveal_strlit("offset");
    reveal_strlit("symbol");
    reveal_strlit("kind");
    reveal_strlit("module");
    reveal_strlit("section");
    reveal_strlit("va_type");
    reveal_strlit("region");
    assert("address"@.len() == 7);
    assert("offset"@.len() == 6);
    assert("symbol"@.len() == 6);
    assert("kind"@.len() == 4);
    assert("module"@.len() == 6);
    assert("section"@.len() == 7);
    assert("va_type"@.len() == 7);
    assert("region"@.len() == 6);
    assert("address"@[0] != "section"@[0]);
    assert("address"@[0] != "va_type"@[0]);
    assert("offset"@[0] != "symbol"@[0]);
    assert("offset"@[0] != "module"@[0]);
    assert("offset"@[0] != "region"@[0]);
    assert("symbol"@[0] != "module"@[0]);
    assert("symbol"@[0] != "region"@[0]);
    assert("module"@[0] != "region"@[0]);
    assert("section"@[0] != "va_type"@[0]);
    if let Some(module) = m.description.module {
        lemma_module(module);
    }
    if let Some(g) = m.description.region {
        lemma_region(g);
    }
}

/// A page-table level stands field by field under the names of its parts: its frame
/// number and each of its flags are those of the bits of the entry.
#[verifier::spinoff_prover]
pub proof fn law_pte_level<F: FnOnce(PageTableEntry) -> String>(pte: PteLevel, flags: F, r: View)
    requires
        call_ensures(builders::pte_level::<F>, (&pte, flags), r),
    ensures
        exists|shown: String| #[trigger]
            call_ensures(flags, (pte.value,), shown) && shows_pte_level(r.shape(), pte, shown@),
{
    broadcast use lemma_found;

    reveal_strlit("level");
    reveal_strlit("address");
    reveal_strlit("value");
    reveal_strlit("pfn");
    reveal_strlit("present");
    reveal_strlit("large_page");
    reveal_strlit("writable");
    reveal_strlit("user");
    reveal_strlit("nx");
    reveal_strlit("flags");
    assert("level"@.len() == 5);
    assert("address"@.len() == 7);
    assert("value"@.len() == 5);
    assert("pfn"@.len() == 3);
    assert("present"@.len() == 7);
    assert("large_page"@.len() == 10);
    assert("writable"@.len() == 8);
    assert("user"@.len() == 4);
    assert("nx"@.len() == 2);
    assert("flags"@.len() == 5);
    assert("level"@[0] != "value"@[0]);
    assert("level"@[0] != "flags"@[0]);
    assert("address"@[0] != "present"@[0]);
    assert("value"@[0] != "flags"@[0]);
    law_bits_of_an_entry(pte.value);
    let frame = pte.value.frame();
    assert(frame >> 12u64 == frame / 0x1000) by (bit_vector);
    let shown = choose|shown: String| #[trigger]
        call_ensures(flags, (pte.value,), shown) && r.shape() == builders::pte_level_node(
            pte,
            shown@,
        );
    assert(shows_pte_level(r.shape(), pte, shown@));
}

/// A trap frame stands under its names, each register under its own.
#[verifier::spinoff_prover]
pub proof fn law_trap_frame(frame: KtrapFrame, rip_symbol: Option<String>, r: View)
    requires
        call_ensures(builders::trap_frame, (&frame, rip_symbol), r),
    ensures
        shows_trap_frame(r.shape(), frame, rip_symbol),
{
    broadcast use lemma_found;

    reveal_strlit("address");
    reveal_strlit("rip_symbol");
    reveal_strlit("frame");
    assert("address"@.len() == 7);
    assert("rip_symbol"@.len() == 10);
    assert("frame"@.len() == 5);
    lemma_ktrap_frame(frame);
}

#[verifier::spinoff_prover]
proof fn lemma_bugcheck_trap_frame(tf: BugcheckTrapFrame)
    ensures
        shows_bugcheck_trap_frame(builders::bugcheck_trap_frame_node(tf), tf),
{
    broadcast use lemma_found;

    reveal_strlit("address");
    reveal_strlit("rip_symbol");
    reveal_strlit("frame");
    reveal_strlit("error");
    assert("address"@.len() == 7);
    assert("rip_symbol"@.len() == 10);
    assert("frame"@.len() == 5);
    assert("error"@.len() == 5);
    assert("frame"@[0] != "error"@[0]);
    if let Some(frame) = tf.frame {
        lemma_ktrap_frame(frame);
    }
}

/// A trap frame that a bugcheck carries stands under its names: its registers, or null
/// with the reason.
#[verifier::spinoff_prover]
pub proof fn law_bugcheck_trap_frame(tf: BugcheckTrapFrame, r: View)
    requires
        call_ensures(builders::bugcheck_trap_frame, (&tf,), r),
    ensures
        shows_bugcheck_trap_frame(r.shape(), tf),
{
    lemma_bugcheck_trap_frame(tf);
}

/// A bugcheck stands field by field under the names of its parts: its parameters
/// numbered from one, its trap frames in their order.
#[verifier::spinoff_prover]
pub proof fn law_bugcheck(a: BugcheckAnalysis, r: View)
    requires
        call_ensures(builders::bugcheck, (&a,), r),
        a.args@.len() < u64::MAX,
    ensures
        exists|args: Seq<Node>, frames: Seq<Node>|
            {
                &&& #[trigger] shows_bugcheck(r.shape(), a, args, frames)
                &&& args.len() == a.args@.len()
                &&& forall|i: int|
                    0 <= i < args.len() ==> shows_bugcheck_arg(#[trigger] args[i], i + 1, a.args@[i])
                &&& frames.len() == a.trap_frames@.len()
                &&& forall|i: int|
                    0 <= i < frames.len() ==> shows_bugcheck_trap_frame(
                        #[trigger] frames[i],
                        a.trap_frames@[i],
                    )
            },
{
    broadcast use lemma_found;

    reveal_strlit("code");
    reveal_strlit("code_hex");
    reveal_strlit("name");
    reveal_strlit("description");
    reveal_strlit("driver");
    reveal_strlit("source");
    reveal_strlit("args");
    reveal_strlit("fault");
    reveal_strlit("trap_frames");
    assert("code"@.len() == 4);
    assert("code_hex"@.len() == 8);
    assert("name"@.len() == 4);
    assert("description"@.len() == 11);
    assert("driver"@.len() == 6);
    assert("source"@.len() == 6);
    assert("args"@.len() == 4);
    assert("fault"@.len() == 5);
    assert("trap_frames"@.len() == 11);
    assert("code"@[0] != "name"@[0]);
    assert("code"@[0] != "args"@[0]);
    assert("name"@[0] != "args"@[0]);
    assert("description"@[0] != "trap_frames"@[0]);
    assert("driver"@[0] != "source"@[0]);
    let args = builders::bugcheck_arg_nodes(a.args@);
    let frames = a.trap_frames@.map_values(
        |tf: BugcheckTrapFrame| builders::bugcheck_trap_frame_node(tf),
    );
    if let Some(f) = a.fault {
        lemma_bugcheck_fault(f);
    }
    assert(shows_bugcheck(r.shape(), a, args, frames));
    assert forall|i: int| 0 <= i < args.len() implies shows_bugcheck_arg(
        #[trigger] args[i],
        i + 1,
        a.args@[i],
    ) by {
        lemma_bugcheck_arg((i + 1) as u64, a.args@[i]);
    }
    assert forall|i: int| 0 <= i < frames.len() implies shows_bugcheck_trap_frame(
        #[trigger] frames[i],
        a.trap_frames@[i],
    ) by {
        lemma_bugcheck_trap_frame(a.trap_frames@[i]);
    }
}

} // verus!
