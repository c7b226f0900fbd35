//! Builders: one decoded structure to its neutral shape.
use crate::bugchecks::{BugcheckAnalysis, BugcheckArg, BugcheckFault, BugcheckTrapFrame};
use crate::gdb::breakpoints::Breakpoint;
use crate::inspect::{
    AddressDescription, AddressModule, AttachedDevice, DeviceObjectDetail, DriverDevice,
    DriverObjectDetail, IoStackLocationInfo, IrpHit, IrpInfo, MemoryRegionInfo, MemorySearchMatch,
    NotifyCallback, ObjectHeaderDetail, PteLevel, SsdtEntry, SsdtTable,
};
use crate::memory::PAGE_SHIFT;
use crate::text::{hex_padded, hexadecimal_padded, text, text_opt};
use crate::trapframe::KtrapFrame;
use crate::types::{PageTableEntry, VirtAddr};
use crate::view::{list, shapes, Fields, Node, View};
use vstd::prelude::*;
use vstd::string::*;
use vstd::view::View as _;

verus! {

/// The number of an optional address.
pub open spec fn address_value(address: Option<VirtAddr>) -> Option<u64> {
    match address {
        Some(a) => Some(a.0),
        None => None,
    }
}

/// An optional status, widened.
pub open spec fn widened(status: Option<u32>) -> Option<u64> {
    match status {
        Some(s) => Some(s as u64),
        None => None,
    }
}

fn opt_address(address: Option<VirtAddr>) -> (r: View)
    ensures
        r.shape() == Node::OptHex(address_value(address)),
{
    View::OptHex(
        match address {
            Some(a) => Some(a.0),
            None => None,
        },
    )
}

fn opt_text(s: &Option<String>) -> (r: View)
    ensures
        r.shape() == Node::OptStr(text_opt(*s)),
{
    View::OptStr(
        match s {
            Some(s) => Some(s.clone()),
            None => None,
        },
    )
}

/// The shape of an `_IO_STACK_LOCATION` whose major function has this name.
pub open spec fn io_stack_node(s: IoStackLocationInfo, name: Seq<char>) -> Node {
    Node::Object(
        Seq::empty().push(("address"@, Node::Hex(s.address.0)))
            .push(("major_function"@, Node::Num(s.major_function as u64)))
            .push(("major_function_name"@, Node::Str("IRP_MJ_"@ + name)))
            .push(("minor_function"@, Node::Num(s.minor_function as u64)))
            .push(("device_object"@, Node::Hex(s.device_object.0)))
            .push(("file_object"@, Node::Hex(s.file_object.0)))
            .push(("completion_routine"@, Node::Hex(s.completion_routine.0)))
            .push(("context"@, Node::Hex(s.context.0))),
    )
}

fn io_stack(s: &IoStackLocationInfo, name: String) -> (r: View)
    ensures
        r.shape() == io_stack_node(*s, name@),
{
    Fields::new()
        .with("address", View::Hex(s.address.0))
        .with("major_function", View::Num(s.major_function as u64))
        .with("major_function_name", View::Str(text("IRP_MJ_").concat(name.as_str())))
        .with("minor_function", View::Num(s.minor_function as u64))
        .with("device_object", View::Hex(s.device_object.0))
        .with("file_object", View::Hex(s.file_object.0))
        .with("completion_routine", View::Hex(s.completion_routine.0))
        .with("context", View::Hex(s.context.0))
        .done()
}

/// The shape of an `_IRP` with this view of its current stack location.
pub open spec fn irp_node(i: IrpInfo, stack: Node) -> Node {
    Node::Object(
        Seq::empty().push(("address"@, Node::Hex(i.address.0)))
            .push(("type"@, Node::Num(i.irp_type as u64)))
            .push(("size"@, Node::Num(i.size as u64)))
            .push(("stack_count"@, Node::Num(i.stack_count as u64)))
            .push(("current_location"@, Node::Num(i.current_location as u64)))
            .push(("pending_returned"@, Node::Bool(i.pending_returned)))
            .push(("requestor_mode"@, Node::Num(i.requestor_mode as u64)))
            .push(("io_status"@, Node::OptHex(widened(i.io_status))))
            .push(("user_event"@, Node::Hex(i.user_event.0)))
            .push(("user_buffer"@, Node::Hex(i.user_buffer.0)))
            .push(("mdl_address"@, Node::Hex(i.mdl_address.0)))
            .push(("thread"@, Node::Hex(i.thread.0)))
            .push(("current_stack"@, stack)),
    )
}

/// `_IRP` plus its current `_IO_STACK_LOCATION` (`current_stack` is null when the
/// stack slot is out of range or unreadable). `name` names a major function.
pub fn irp<N: FnOnce(u8) -> String>(i: &IrpInfo, name: N) -> (r: View)
    requires
        i.current_stack matches Some(s) ==> call_requires(name, (s.major_function,)),
    ensures
        match i.current_stack {
            None => r.shape() == irp_node(*i, Node::Null),
            Some(s) => exists|named: String| #[trigger]
                call_ensures(name, (s.major_function,), named) && r.shape() == irp_node(
                    *i,
                    io_stack_node(s, named@),
                ),
        },
{
    let stack = match &i.current_stack {
        Some(s) => {
            let named = name(s.major_function);
            io_stack(s, named)
        },
        None => View::Null,
    };
    Fields::new()
        .with("address", View::Hex(i.address.0))
        .with("type", View::Num(i.irp_type as u64))
        .with("size", View::Num(i.size as u64))
        .with("stack_count", View::Num(i.stack_count as u64))
        .with("current_location", View::Num(i.current_location as u64))
        .with("pending_returned", View::Bool(i.pending_returned))
        .with("requestor_mode", View::Num(i.requestor_mode as u64))
        .with(
            "io_status",
            View::OptHex(
                match i.io_status {
                    Some(status) => Some(status as u64),
                    None => None,
                },
            ),
        )
        .with("user_event", View::Hex(i.user_event.0))
        .with("user_buffer", View::Hex(i.user_buffer.0))
        .with("mdl_address", View::Hex(i.mdl_address.0))
        .with("thread", View::Hex(i.thread.0))
        .with("current_stack", stack)
        .done()
}

/// The shape of a device of a driver.
pub open spec fn driver_device_node(x: DriverDevice) -> Node {
    Node::Object(
        Seq::empty().push(("device"@, Node::Hex(x.device.0)))
            .push(("device_type"@, Node::Num(x.device_type as u64)))
            .push(("flags"@, Node::Num(x.flags as u64)))
            .push(("characteristics"@, Node::Num(x.characteristics as u64)))
            .push(("attached"@, Node::Hex(x.attached.0)))
            .push(("next"@, Node::Hex(x.next.0))),
    )
}

fn driver_device(x: &DriverDevice) -> (r: View)
    ensures
        r.shape() == driver_device_node(*x),
{
    Fields::new()
        .with("device", View::Hex(x.device.0))
        .with("device_type", View::Num(x.device_type as u64))
        .with("flags", View::Num(x.flags as u64))
        .with("characteristics", View::Num(x.characteristics as u64))
        .with("attached", View::Hex(x.attached.0))
        .with("next", View::Hex(x.next.0))
        .done()
}

/// The shape of the dispatch routine of a major function.
pub open spec fn dispatch_node(index: int, routine: VirtAddr, name: Seq<char>, symbol: Option<Seq<char>>) -> Node {
    Node::Object(
        Seq::empty().push(("index"@, Node::Num(index as u64)))
            .push(("name"@, Node::Str("IRP_MJ_"@ + name)))
            .push(("routine"@, Node::Hex(routine.0)))
            .push(("symbol"@, Node::OptStr(symbol))),
    )
}

fn dispatch_entry(index: usize, routine: VirtAddr, name: String, symbol: Option<String>) -> (r: View)
    ensures
        r.shape() == dispatch_node(index as int, routine, name@, text_opt(symbol)),
{
    Fields::new()
        .with("index", View::Num(index as u64))
        .with("name", View::Str(text("IRP_MJ_").concat(name.as_str())))
        .with("routine", View::Hex(routine.0))
        .with("symbol", View::OptStr(symbol))
        .done()
}

/// The shape of a `_DRIVER_OBJECT` with this view of its dispatch table.
pub open spec fn driver_object_node(d: DriverObjectDetail, dispatch: Seq<Node>) -> Node {
    Node::Object(
        Seq::empty().push(("object"@, Node::Hex(d.object.0)))
            .push(("via_pointer"@, Node::Bool(d.via_pointer)))
            .push(("name"@, Node::OptStr(text_opt(d.name))))
            .push(("driver_start"@, Node::Hex(d.driver_start.0)))
            .push(("driver_size"@, Node::Num(d.driver_size)))
            .push(("driver_section"@, Node::Hex(d.driver_section.0)))
            .push(("driver_unload"@, Node::Hex(d.driver_unload.0)))
            .push(("devices"@, Node::List(d.device_chain@.map_values(|x: DriverDevice| driver_device_node(x)))))
            .push(("dispatch"@, Node::List(dispatch))),
    )
}

/// The shapes of a dispatch table, given the name of each major function and
/// the symbol of each routine.
pub open spec fn dispatch_nodes(
    dispatch: Seq<VirtAddr>,
    names: Seq<String>,
    symbols: Seq<Option<String>>,
) -> Seq<Node> {
    Seq::new(
        dispatch.len(),
        |i: int| dispatch_node(i, dispatch[i], names[i]@, text_opt(symbols[i])),
    )
}

/// Whether `names` and `symbols` may be what the two functions give for the
/// first entries of a dispatch table.
pub open spec fn may_resolve<N: Fn(u8) -> String, S: Fn(VirtAddr) -> Option<String>>(
    dispatch: Seq<VirtAddr>,
    name: N,
    symbol: S,
    names: Seq<String>,
    symbols: Seq<Option<String>>,
) -> bool {
    &&& names.len() == symbols.len() <= dispatch.len()
    &&& forall|i: int|
        0 <= i < names.len() ==> call_ensures(name, (i as u8,), #[trigger] names[i])
    &&& forall|i: int|
        0 <= i < symbols.len() ==> call_ensures(symbol, (dispatch[i],), #[trigger] symbols[i])
}

/// `_DRIVER_OBJECT`: header fields, device chain, and the `IRP_MJ_*` dispatch
/// table. `name` names a major function, `symbol` gives the nearest symbol of a
/// routine.
pub fn driver_object<N: Fn(u8) -> String, S: Fn(VirtAddr) -> Option<String>>(
    d: &DriverObjectDetail,
    name: N,
    symbol: S,
) -> (r: View)
    requires
        forall|major: u8| call_requires(name, (major,)),
        forall|routine: VirtAddr| call_requires(symbol, (routine,)),
    ensures
        exists|names: Seq<String>, symbols: Seq<Option<String>>|
            {
                &&& #[trigger] may_resolve(d.dispatch@, name, symbol, names, symbols)
                &&& names.len() == d.dispatch@.len()
                &&& r.shape() == driver_object_node(
                    *d,
                    dispatch_nodes(d.dispatch@, names, symbols),
                )
            },
{
    let mut devices: Vec<View> = Vec::new();
    let mut i: usize = 0;
    while i < d.device_chain.len()
        invariant
            i <= d.device_chain@.len(),
            devices@.len() == i,
            forall|k: int|
                0 <= k < i ==> (#[trigger] devices@[k]).shape() == driver_device_node(
                    d.device_chain@[k],
                ),
        decreases d.device_chain@.len() - i,
    {
        devices.push(driver_device(&d.device_chain[i]));
        i += 1;
    }
    assert(shapes(devices@) =~= d.device_chain@.map_values(
        |x: DriverDevice| driver_device_node(x),
    ));
    let mut dispatch: Vec<View> = Vec::new();
    let ghost mut names: Seq<String> = Seq::empty();
    let ghost mut symbols: Seq<Option<String>> = Seq::empty();
    let mut n: usize = 0;
    while n < d.dispatch.len()
        invariant
            n <= d.dispatch@.len(),
            forall|major: u8| call_requires(name, (major,)),
            forall|routine: VirtAddr| call_requires(symbol, (routine,)),
            dispatch@.len() == n,
            names.len() == n,
            may_resolve(d.dispatch@, name, symbol, names, symbols),
            forall|k: int|
                0 <= k < n ==> (#[trigger] dispatch@[k]).shape() == dispatch_node(
                    k,
                    d.dispatch@[k],
                    names[k]@,
                    text_opt(symbols[k]),
                ),
        decreases d.dispatch@.len() - n,
    {
        let routine = d.dispatch[n];
        let named = name(n as u8);
        let found = symbol(routine);
        proof {
            names = names.push(named);
            symbols = symbols.push(found);
        }
        dispatch.push(dispatch_entry(n, routine, named, found));
        n += 1;
    }
    assert(shapes(dispatch@) =~= dispatch_nodes(d.dispatch@, names, symbols));
    Fields::new()
        .with("object", View::Hex(d.object.0))
        .with("via_pointer", View::Bool(d.via_pointer))
        .with("name", opt_text(&d.name))
        .with("driver_start", View::Hex(d.driver_start.0))
        .with("driver_size", View::Num(d.driver_size))
        .with("driver_section", View::Hex(d.driver_section.0))
        .with("driver_unload", View::Hex(d.driver_unload.0))
        .with("devices", list(devices))
        .with("dispatch", list(dispatch))
        .done()
}

/// The shape of a device in an `AttachedDevice` stack.
pub open spec fn attached_device_node(x: AttachedDevice) -> Node {
    Node::Object(
        Seq::empty().push(("device"@, Node::Hex(x.device.0)))
            .push(("driver_object"@, Node::Hex(x.driver_object.0)))
            .push(("device_type"@, Node::Num(x.device_type as u64)))
            .push(("flags"@, Node::Num(x.flags as u64))),
    )
}

fn attached_device(x: &AttachedDevice) -> (r: View)
    ensures
        r.shape() == attached_device_node(*x),
{
    Fields::new()
        .with("device", View::Hex(x.device.0))
        .with("driver_object", View::Hex(x.driver_object.0))
        .with("device_type", View::Num(x.device_type as u64))
        .with("flags", View::Num(x.flags as u64))
        .done()
}

/// The shape of a `_DEVICE_OBJECT`.
pub open spec fn device_object_node(d: DeviceObjectDetail) -> Node {
    Node::Object(
        Seq::empty().push(("object"@, Node::Hex(d.object.0)))
            .push(("via_pointer"@, Node::Bool(d.via_pointer)))
            .push(("device_type"@, Node::Num(d.device_type as u64)))
            .push(("flags"@, Node::Num(d.flags as u64)))
            .push(("characteristics"@, Node::Num(d.characteristics as u64)))
            .push(("driver_object"@, Node::Hex(d.driver_object.0)))
            .push(("attached_device"@, Node::Hex(d.attached_device.0)))
            .push(("next_device"@, Node::Hex(d.next_device.0)))
            .push(("current_irp"@, Node::Hex(d.current_irp.0)))
            .push(("device_extension"@, Node::Hex(d.device_extension.0)))
            .push(("attached_stack"@, Node::List(d.attached_stack@.map_values(|x: AttachedDevice| attached_device_node(x))))),
    )
}

/// `_DEVICE_OBJECT` plus its `AttachedDevice` stack.
pub fn device_object(d: &DeviceObjectDetail) -> (r: View)
    ensures
        r.shape() == device_object_node(*d),
{
    let mut stack: Vec<View> = Vec::new();
    let mut i: usize = 0;
    while i < d.attached_stack.len()
        invariant
            i <= d.attached_stack@.len(),
            stack@.len() == i,
            forall|k: int|
                0 <= k < i ==> (#[trigger] stack@[k]).shape() == attached_device_node(d.attached_stack@[k]),
        decreases d.attached_stack@.len() - i,
    {
        stack.push(attached_device(&d.attached_stack[i]));
        i += 1;
    }
    assert(shapes(stack@) =~= d.attached_stack@.map_values(|x: AttachedDevice| attached_device_node(x)));
    Fields::new()
        .with("object", View::Hex(d.object.0))
        .with("via_pointer", View::Bool(d.via_pointer))
        .with("device_type", View::Num(d.device_type as u64))
        .with("flags", View::Num(d.flags as u64))
        .with("characteristics", View::Num(d.characteristics as u64))
        .with("driver_object", View::Hex(d.driver_object.0))
        .with("attached_device", View::Hex(d.attached_device.0))
        .with("next_device", View::Hex(d.next_device.0))
        .with("current_irp", View::Hex(d.current_irp.0))
        .with("device_extension", View::Hex(d.device_extension.0))
        .with("attached_stack", list(stack))
        .done()
}

/// The shape of an `_OBJECT_HEADER`.
pub open spec fn object_header_node(o: ObjectHeaderDetail) -> Node {
    Node::Object(
        Seq::empty().push(("input"@, Node::Hex(o.input.0)))
            .push(("mode"@, Node::Str(o.mode@)))
            .push(("header"@, Node::Hex(o.header.0)))
            .push(("body"@, Node::Hex(o.body.0)))
            .push(("pointer_count"@, Node::Int(o.pointer_count)))
            .push(("handle_count"@, Node::Int(o.handle_count)))
            .push(("type_index"@, Node::OptNum(o.type_index)))
            .push(("type_object"@, Node::OptHex(address_value(o.type_object))))
            .push(("type_name"@, Node::OptStr(text_opt(o.kind_name))))
            .push(("info_mask"@, Node::OptNum(
                    match o.info_mask {
                        Some(mask) => Some(mask as u64),
                        None => None,
                    },
                )))
            .push(("name_info"@, Node::OptHex(address_value(o.name_info))))
            .push(("name"@, Node::OptStr(text_opt(o.name)))),
    )
}

/// Executive `_OBJECT_HEADER` and the body it precedes.
pub fn object_header(o: &ObjectHeaderDetail) -> (r: View)
    ensures
        r.shape() == object_header_node(*o),
{
    Fields::new()
        .with("input", View::Hex(o.input.0))
        .with("mode", View::Str(text(o.mode)))
        .with("header", View::Hex(o.header.0))
        .with("body", View::Hex(o.body.0))
        .with("pointer_count", View::Int(o.pointer_count))
        .with("handle_count", View::Int(o.handle_count))
        .with("type_index", View::OptNum(o.type_index))
        .with("type_object", opt_address(o.type_object))
        .with("type_name", opt_text(&o.kind_name))
        .with(
            "info_mask",
            View::OptNum(
                match o.info_mask {
                    Some(mask) => Some(mask as u64),
                    None => None,
                },
            ),
        )
        .with("name_info", opt_address(o.name_info))
        .with("name", opt_text(&o.name))
        .done()
}

/// The shape of a notification callback with this symbol.
pub open spec fn notify_callback_node(c: NotifyCallback, symbol: Option<Seq<char>>) -> Node {
    Node::Object(
        Seq::empty().push(("kind"@, Node::Str(c.kind@)))
            .push(("index"@, Node::Num(c.index as u64)))
            .push(("function"@, Node::Hex(c.function.0)))
            .push(("symbol"@, Node::OptStr(symbol)))
            .push(("block"@, Node::Hex(c.block.0)))
            .push(("raw"@, Node::Hex(c.raw.0)))
            .push(("context"@, Node::Hex(c.context.0))),
    )
}

/// One notification-callback row; `symbol` is resolved by the surface (it may
/// also drive a symbol filter) and passed in.
pub fn notify_callback(c: &NotifyCallback, symbol: Option<String>) -> (r: View)
    ensures
        r.shape() == notify_callback_node(*c, text_opt(symbol)),
{
    Fields::new()
        .with("kind", View::Str(text(c.kind)))
        .with("index", View::Num(c.index as u64))
        .with("function", View::Hex(c.function.0))
        .with("symbol", View::OptStr(symbol))
        .with("block", View::Hex(c.block.0))
        .with("raw", View::Hex(c.raw.0))
        .with("context", View::Hex(c.context.0))
        .done()
}

/// The shape of an entry of a system-service table.
pub open spec fn ssdt_entry_node(x: SsdtEntry) -> Node {
    Node::Object(
        Seq::empty().push(("index"@, Node::Num(x.index as u64)))
            .push(("target"@, Node::Hex(x.target.0)))
            .push(("symbol"@, Node::OptStr(text_opt(x.symbol))))
            .push(("module"@, Node::OptStr(text_opt(x.module)))),
    )
}

fn ssdt_entry(x: &SsdtEntry) -> (r: View)
    ensures
        r.shape() == ssdt_entry_node(*x),
{
    Fields::new()
        .with("index", View::Num(x.index as u64))
        .with("target", View::Hex(x.target.0))
        .with("symbol", opt_text(&x.symbol))
        .with("module", opt_text(&x.module))
        .done()
}

/// The shape of a system-service table.
pub open spec fn ssdt_table_node(t: SsdtTable) -> Node {
    Node::Object(
        Seq::empty().push(("label"@, Node::Str(t.label@)))
            .push(("base"@, Node::Hex(t.base.0)))
            .push(("limit"@, Node::Num(t.limit as u64)))
            .push(("entries"@, Node::List(t.entries@.map_values(|x: SsdtEntry| ssdt_entry_node(x))))),
    )
}

/// One system-service table (the kernel SSDT or the win32k shadow).
pub fn ssdt_table(t: &SsdtTable) -> (r: View)
    ensures
        r.shape() == ssdt_table_node(*t),
{
    let mut entries: Vec<View> = Vec::new();
    let mut i: usize = 0;
    while i < t.entries.len()
        invariant
            i <= t.entries@.len(),
            entries@.len() == i,
            forall|k: int|
                0 <= k < i ==> (#[trigger] entries@[k]).shape() == ssdt_entry_node(t.entries@[k]),
        decreases t.entries@.len() - i,
    {
        entries.push(ssdt_entry(&t.entries[i]));
        i += 1;
    }
    assert(shapes(entries@) =~= t.entries@.map_values(|x: SsdtEntry| ssdt_entry_node(x)));
    Fields::new()
        .with("label", View::Str(t.label.clone()))
        .with("base", View::Hex(t.base.0))
        .with("limit", View::Num(t.limit as u64))
        .with("entries", list(entries))
        .done()
}

/// The shape of an in-flight IRP whose thread is in this state for this reason.
pub open spec fn irp_hit_node(h: IrpHit, state: Option<Seq<char>>, reason: Option<Seq<char>>) -> Node {
    Node::Object(
        Seq::empty().push(("irp"@, Node::Hex(h.irp.0)))
            .push(("source"@, Node::Str(h.source@)))
            .push(("stack_count"@, Node::Num(h.stack_count as u64)))
            .push(("current_location"@, Node::Num(h.current_location as u64)))
            .push(("pid"@, Node::OptNum(h.pid)))
            .push(("tid"@, Node::OptNum(h.tid)))
            .push(("ethread"@, Node::OptHex(address_value(h.ethread))))
            .push(("state"@, Node::OptStr(state)))
            .push(("wait_reason"@, Node::OptStr(reason)))
            .push(("driver"@, Node::OptStr(text_opt(h.driver))))
            .push(("device"@, Node::OptHex(address_value(h.device)))),
    )
}

/// Whether naming an optional number may give `named`.
pub open spec fn may_name<F: FnOnce(u8) -> String>(
    number: Option<u8>,
    name: F,
    named: Option<String>,
) -> bool {
    match number {
        Some(n) => named matches Some(s) && call_ensures(name, (n,), s),
        None => named is None,
    }
}

/// One discovered in-flight IRP plus the context it was found in. `state_name`
/// names a thread state, `reason_name` a wait reason.
pub fn irp_hit<F: FnOnce(u8) -> String, G: FnOnce(u8) -> String>(
    h: &IrpHit,
    state_name: F,
    reason_name: G,
) -> (r: View)
    requires
        h.state matches Some(n) ==> call_requires(state_name, (n,)),
        h.wait_reason matches Some(n) ==> call_requires(reason_name, (n,)),
    ensures
        exists|state: Option<String>, reason: Option<String>|
            {
                &&& #[trigger] may_name(h.state, state_name, state)
                &&& #[trigger] may_name(h.wait_reason, reason_name, reason)
                &&& r.shape() == irp_hit_node(*h, text_opt(state), text_opt(reason))
            },
{
    let state: Option<String> = match h.state {
        Some(n) => Some(state_name(n)),
        None => None,
    };
    let reason: Option<String> = match h.wait_reason {
        Some(n) => Some(reason_name(n)),
        None => None,
    };
    assert(may_name(h.state, state_name, state));
    assert(may_name(h.wait_reason, reason_name, reason));
    Fields::new()
        .with("irp", View::Hex(h.irp.0))
        .with("source", View::Str(text(h.source)))
        .with("stack_count", View::Num(h.stack_count as u64))
        .with("current_location", View::Num(h.current_location as u64))
        .with("pid", View::OptNum(h.pid))
        .with("tid", View::OptNum(h.tid))
        .with("ethread", opt_address(h.ethread))
        .with("state", View::OptStr(state))
        .with("wait_reason", View::OptStr(reason))
        .with("driver", opt_text(&h.driver))
        .with("device", opt_address(h.device))
        .done()
}

/// The shape of the module that an address lies in.
pub open spec fn address_module_node(m: AddressModule) -> Node {
    Node::Object(
        Seq::empty().push(("name"@, Node::Str(m.name@)))
            .push(("base"@, Node::Hex(m.base.0)))
            .push(("size"@, Node::Num(m.size as u64)))
            .push(("offset"@, Node::Hex(m.offset))),
    )
}

fn address_module(m: &AddressModule) -> (r: View)
    ensures
        r.shape() == address_module_node(*m),
{
    Fields::new()
        .with("name", View::Str(m.name.clone()))
        .with("base", View::Hex(m.base.0))
        .with("size", View::Num(m.size as u64))
        .with("offset", View::Hex(m.offset))
        .done()
}

/// The shape of the region that an address lies in.
pub open spec fn memory_region_node(g: MemoryRegionInfo) -> Node {
    Node::Object(
        Seq::empty().push(("start"@, Node::Hex(g.start.0)))
            .push(("end"@, Node::Hex(g.end.0)))
            .push(("protection"@, Node::OptNum(g.protection)))
            .push(("vad_type"@, Node::OptNum(g.vad_type)))
            .push(("private_memory"@, Node::OptBool(g.private_memory)))
            .push(("commit_charge"@, Node::OptNum(g.commit_charge)))
            .push(("details"@, Node::OptStr(text_opt(g.details)))),
    )
}

fn memory_region(g: &MemoryRegionInfo) -> (r: View)
    ensures
        r.shape() == memory_region_node(*g),
{
    Fields::new()
        .with("start", View::Hex(g.start.0))
        .with("end", View::Hex(g.end.0))
        .with("protection", View::OptNum(g.protection))
        .with("vad_type", View::OptNum(g.vad_type))
        .with("private_memory", View::OptBool(g.private_memory))
        .with("commit_charge", View::OptNum(g.commit_charge))
        .with("details", opt_text(&g.details))
        .done()
}

/// The shape of what an address may lie in: null where it lies in no module.
pub open spec fn module_or_null(module: Option<AddressModule>) -> Node {
    match module {
        Some(m) => address_module_node(m),
        None => Node::Null,
    }
}

fn opt_module(module: &Option<AddressModule>) -> (r: View)
    ensures
        r.shape() == module_or_null(*module),
{
    match module {
        Some(m) => address_module(m),
        None => View::Null,
    }
}

/// The shape of what an address may lie in: null where it lies in no region.
pub open spec fn region_or_null(region: Option<MemoryRegionInfo>) -> Node {
    match region {
        Some(g) => memory_region_node(g),
        None => Node::Null,
    }
}

fn opt_region(region: &Option<MemoryRegionInfo>) -> (r: View)
    ensures
        r.shape() == region_or_null(*region),
{
    match region {
        Some(g) => memory_region(g),
        None => View::Null,
    }
}

/// The shape of what an address belongs to.
pub open spec fn address_description_node(d: AddressDescription) -> Node {
    Node::Object(
        Seq::empty().push(("address"@, Node::Hex(d.address.0)))
            .push(("dtb"@, Node::Hex(d.dtb)))
            .push(("kind"@, Node::Str(d.kind@)))
            .push(("module"@, module_or_null(d.module)))
            .push(("section"@, Node::OptStr(text_opt(d.section))))
            .push(("va_type"@, Node::OptStr(text_opt(d.va_type))))
            .push(("region"@, region_or_null(d.region))),
    )
}

/// What an address belongs to (the loaded module/section, the process VAD
/// region, or nothing recognized).
pub fn address_description(d: &AddressDescription) -> (r: View)
    ensures
        r.shape() == address_description_node(*d),
{
    Fields::new()
        .with("address", View::Hex(d.address.0))
        .with("dtb", View::Hex(d.dtb))
        .with("kind", View::Str(text(d.kind)))
        .with("module", opt_module(&d.module))
        .with("section", opt_text(&d.section))
        .with("va_type", opt_text(&d.va_type))
        .with("region", opt_region(&d.region))
        .done()
}

/// The shape of a hit of a memory search.
pub open spec fn memory_search_match_node(m: MemorySearchMatch) -> Node {
    Node::Object(
        Seq::empty().push(("address"@, Node::Hex(m.address.0)))
            .push(("offset"@, Node::Hex(m.offset)))
            .push(("symbol"@, Node::OptStr(text_opt(m.symbol))))
            .push(("kind"@, Node::Str(m.description.kind@)))
            .push(("module"@, module_or_null(m.description.module)))
            .push(("section"@, Node::OptStr(text_opt(m.description.section))))
            .push(("va_type"@, Node::OptStr(text_opt(m.description.va_type))))
            .push(("region"@, region_or_null(m.description.region))),
    )
}

/// One structured memory-search hit.
pub fn memory_search_match(m: &MemorySearchMatch) -> (r: View)
    ensures
        r.shape() == memory_search_match_node(*m),
{
    Fields::new()
        .with("address", View::Hex(m.address.0))
        .with("offset", View::Hex(m.offset))
        .with("symbol", opt_text(&m.symbol))
        .with("kind", View::Str(text(m.description.kind)))
        .with("module", opt_module(&m.description.module))
        .with("section", opt_text(&m.description.section))
        .with("va_type", opt_text(&m.description.va_type))
        .with("region", opt_region(&m.description.region))
        .done()
}

/// The shape of a page-table level whose flags are shown like this.
pub open spec fn pte_level_node(pte: PteLevel, shown: Seq<char>) -> Node {
    Node::Object(
        Seq::empty().push(("level"@, Node::Str(pte.name@)))
            .push(("address"@, Node::Hex(pte.address.0)))
            .push(("value"@, Node::Hex(pte.value.0)))
            .push(("pfn"@, Node::Hex(pte.value.frame() >> PAGE_SHIFT as u64)))
            .push(("present"@, Node::Bool(pte.value.present())))
            .push(("large_page"@, Node::Bool(pte.value.large_page())))
            .push(("writable"@, Node::Bool(pte.value.writable())))
            .push(("user"@, Node::Bool(pte.value.user())))
            .push(("nx"@, Node::Bool(pte.value.nx())))
            .push(("flags"@, Node::Str(shown))),
    )
}

/// One page-table level (WinDbg-style flags). `flags` shows the flags of an
/// entry.
pub fn pte_level<F: FnOnce(PageTableEntry) -> String>(pte: &PteLevel, flags: F) -> (r: View)
    requires
        call_requires(flags, (pte.value,)),
    ensures
        exists|shown: String| #[trigger]
            call_ensures(flags, (pte.value,), shown) && r.shape() == pte_level_node(*pte, shown@),
{
    let shown = flags(pte.value);
    Fields::new()
        .with("level", View::Str(pte.name.clone()))
        .with("address", View::Hex(pte.address.0))
        .with("value", View::Hex(pte.value.0))
        .with("pfn", View::Hex(pte.value.pfn()))
        .with("present", View::Bool(pte.value.is_present()))
        .with("large_page", View::Bool(pte.value.is_large_page()))
        .with("writable", View::Bool(pte.value.is_writable()))
        .with("user", View::Bool(pte.value.is_user()))
        .with("nx", View::Bool(pte.value.is_nx()))
        .with("flags", View::Str(shown))
        .done()
}

/// The shape of a parameter of a bugcheck.
pub open spec fn bugcheck_arg_node(number: u64, arg: BugcheckArg) -> Node {
    Node::Object(
        Seq::empty().push(("index"@, Node::Num(number)))
            .push(("value"@, Node::Hex(arg.value)))
            .push(("description"@, Node::Str(arg.description@))),
    )
}

fn bugcheck_arg(number: u64, arg: &BugcheckArg) -> (r: View)
    ensures
        r.shape() == bugcheck_arg_node(number, *arg),
{
    Fields::new()
        .with("index", View::Num(number))
        .with("value", View::Hex(arg.value))
        .with("description", View::Str(arg.description.clone()))
        .done()
}

/// The shape of the instruction that a bugcheck blames.
pub open spec fn bugcheck_fault_node(f: BugcheckFault) -> Node {
    Node::Object(
        Seq::empty().push(("ip"@, Node::Hex(f.ip)))
            .push(("symbol"@, Node::Str(f.symbol@)))
            .push(("driver"@, Node::OptStr(text_opt(f.driver)))),
    )
}

fn bugcheck_fault(f: &BugcheckFault) -> (r: View)
    ensures
        r.shape() == bugcheck_fault_node(*f),
{
    Fields::new()
        .with("ip", View::Hex(f.ip))
        .with("symbol", View::Str(f.symbol.clone()))
        .with("driver", opt_text(&f.driver))
        .done()
}

/// The shape of the registers of a trap frame.
pub open spec fn ktrap_frame_node(frame: KtrapFrame) -> Node {
    Node::Object(
        Seq::empty().push(("rax"@, Node::Hex(frame.rax)))
            .push(("rbx"@, Node::Hex(frame.rbx)))
            .push(("rcx"@, Node::Hex(frame.rcx)))
            .push(("rdx"@, Node::Hex(frame.rdx)))
            .push(("rsi"@, Node::Hex(frame.rsi)))
            .push(("rdi"@, Node::Hex(frame.rdi)))
            .push(("rbp"@, Node::Hex(frame.rbp)))
            .push(("rsp"@, Node::Hex(frame.rsp)))
            .push(("r8"@, Node::Hex(frame.r8)))
            .push(("r9"@, Node::Hex(frame.r9)))
            .push(("r10"@, Node::Hex(frame.r10)))
            .push(("r11"@, Node::Hex(frame.r11)))
            .push(("rip"@, Node::Hex(frame.rip)))
            .push(("cs"@, Node::Hex(frame.cs as u64)))
            .push(("ss"@, Node::Hex(frame.ss as u64)))
            .push(("eflags"@, Node::Hex(frame.eflags as u64)))
            .push(("error_code"@, Node::Hex(frame.error_code)))
            .push(("previous_mode"@, Node::Num(frame.previous_mode as u64)))
            .push(("previous_irql"@, Node::Num(frame.previous_irql as u64))),
    )
}

fn ktrap_frame_registers(frame: &KtrapFrame) -> (r: View)
    ensures
        r.shape() == ktrap_frame_node(*frame),
{
    Fields::new()
        .with("rax", View::Hex(frame.rax))
        .with("rbx", View::Hex(frame.rbx))
        .with("rcx", View::Hex(frame.rcx))
        .with("rdx", View::Hex(frame.rdx))
        .with("rsi", View::Hex(frame.rsi))
        .with("rdi", View::Hex(frame.rdi))
        .with("rbp", View::Hex(frame.rbp))
        .with("rsp", View::Hex(frame.rsp))
        .with("r8", View::Hex(frame.r8))
        .with("r9", View::Hex(frame.r9))
        .with("r10", View::Hex(frame.r10))
        .with("r11", View::Hex(frame.r11))
        .with("rip", View::Hex(frame.rip))
        .with("cs", View::Hex(frame.cs as u64))
        .with("ss", View::Hex(frame.ss as u64))
        .with("eflags", View::Hex(frame.eflags as u64))
        .with("error_code", View::Hex(frame.error_code))
        .with("previous_mode", View::Num(frame.previous_mode as u64))
        .with("previous_irql", View::Num(frame.previous_irql as u64))
        .done()
}

/// The shape of a trap frame whose `rip` has this symbol.
pub open spec fn trap_frame_node(frame: KtrapFrame, rip_symbol: Option<Seq<char>>) -> Node {
    Node::Object(
        Seq::empty().push(("address"@, Node::Hex(frame.address)))
            .push(("rip_symbol"@, Node::OptStr(rip_symbol)))
            .push(("frame"@, ktrap_frame_node(frame))),
    )
}

/// A decoded `_KTRAP_FRAME` shared by structured host APIs.
pub fn trap_frame(frame: &KtrapFrame, rip_symbol: Option<String>) -> (r: View)
    ensures
        r.shape() == trap_frame_node(*frame, text_opt(rip_symbol)),
{
    Fields::new()
        .with("address", View::Hex(frame.address))
        .with("rip_symbol", View::OptStr(rip_symbol))
        .with("frame", ktrap_frame_registers(frame))
        .done()
}

/// The shape of a trap frame carried by a bugcheck.
pub open spec fn bugcheck_trap_frame_node(tf: BugcheckTrapFrame) -> Node {
    Node::Object(
        Seq::empty().push(("address"@, Node::Hex(tf.address)))
            .push(("rip_symbol"@, Node::OptStr(text_opt(tf.rip_symbol))))
            .push(("frame"@, match tf.frame {
                    Some(frame) => ktrap_frame_node(frame),
                    None => Node::Null,
                }))
            .push(("error"@, Node::OptStr(text_opt(tf.error)))),
    )
}

/// A trap frame carried by a bugcheck parameter: its address, the symbol at
/// the interrupted `rip`, and either the decoded `_KTRAP_FRAME` registers or
/// the reason decoding failed.
pub fn bugcheck_trap_frame(tf: &BugcheckTrapFrame) -> (r: View)
    ensures
        r.shape() == bugcheck_trap_frame_node(*tf),
{
    Fields::new()
        .with("address", View::Hex(tf.address))
        .with("rip_symbol", opt_text(&tf.rip_symbol))
        .with(
            "frame",
            match &tf.frame {
                Some(frame) => ktrap_frame_registers(frame),
                None => View::Null,
            },
        )
        .with("error", opt_text(&tf.error))
        .done()
}

/// The shapes of the parameters of a bugcheck, numbered from 1.
pub open spec fn bugcheck_arg_nodes(args: Seq<BugcheckArg>) -> Seq<Node> {
    Seq::new(args.len(), |i: int| bugcheck_arg_node((i + 1) as u64, args[i]))
}

/// The shape of a bugcheck.
pub open spec fn bugcheck_node(a: BugcheckAnalysis) -> Node {
    Node::Object(
        Seq::empty().push(("code"@, Node::Num(a.code as u64)))
            .push(("code_hex"@, Node::Str("0x"@ + hex_padded(a.code as nat, 8))))
            .push(("name"@, Node::Str(a.name@)))
            .push(("description"@, Node::OptStr(text_opt(a.description))))
            .push(("driver"@, Node::OptStr(text_opt(a.driver))))
            .push(("source"@, Node::OptStr(text_opt(a.source))))
            .push(("args"@, Node::List(bugcheck_arg_nodes(a.args@))))
            .push(("fault"@, match a.fault {
                    Some(f) => bugcheck_fault_node(f),
                    None => Node::Null,
                }))
            .push(("trap_frames"@, Node::List(a.trap_frames@.map_values(|tf: BugcheckTrapFrame| bugcheck_trap_frame_node(tf))))),
    )
}

/// A decoded bugcheck (BSOD): code/name/description, its four parameters, and the
/// faulting instruction when one was identified.
pub fn bugcheck(a: &BugcheckAnalysis) -> (r: View)
    ensures
        r.shape() == bugcheck_node(*a),
{
    let mut args: Vec<View> = Vec::new();
    let mut n: usize = 0;
    while n < a.args.len()
        invariant
            n <= a.args@.len(),
            args@.len() == n,
            forall|k: int|
                0 <= k < n ==> (#[trigger] args@[k]).shape() == bugcheck_arg_node(
                    (k + 1) as u64,
                    a.args@[k],
                ),
        decreases a.args@.len() - n,
    {
        args.push(bugcheck_arg((n + 1) as u64, &a.args[n]));
        n += 1;
    }
    assert(shapes(args@) =~= bugcheck_arg_nodes(a.args@));
    let mut trap_frames: Vec<View> = Vec::new();
    let mut i: usize = 0;
    while i < a.trap_frames.len()
        invariant
            i <= a.trap_frames@.len(),
            trap_frames@.len() == i,
            forall|k: int|
                0 <= k < i ==> (#[trigger] trap_frames@[k]).shape() == bugcheck_trap_frame_node(a.trap_frames@[k]),
        decreases a.trap_frames@.len() - i,
    {
        trap_frames.push(bugcheck_trap_frame(&a.trap_frames[i]));
        i += 1;
    }
    assert(shapes(trap_frames@) =~= a.trap_frames@.map_values(|tf: BugcheckTrapFrame| bugcheck_trap_frame_node(tf)));
    Fields::new()
        .with("code", View::Num(a.code as u64))
        .with("code_hex", View::Str(text("0x").concat(hexadecimal_padded(a.code as u64, 8).as_str())))
        .with("name", View::Str(a.name.clone()))
        .with("description", opt_text(&a.description))
        .with("driver", opt_text(&a.driver))
        .with("source", opt_text(&a.source))
        .with("args", list(args))
        .with(
            "fault",
            match &a.fault {
                Some(f) => bugcheck_fault(f),
                None => View::Null,
            },
        )
        .with("trap_frames", list(trap_frames))
        .done()
}

/// The shape of a breakpoint.
pub open spec fn breakpoint_node<E>(bp: Breakpoint<E>) -> Node {
    Node::Object(
        Seq::empty().push(("id"@, Node::Num(bp.id as u64)))
            .push(("address"@, Node::Hex(bp.address.0)))
            .push(("enabled"@, Node::Bool(bp.enabled)))
            .push(("symbol"@, Node::OptStr(text_opt(bp.symbol))))
            .push(("scope"@, Node::Str(bp.scope.spec_label())))
            .push(("condition"@, Node::OptStr(text_opt(bp.condition))))
            .push(("temporary"@, Node::Bool(bp.temporary)))
            .push(("watch_access"@, Node::OptStr(
                    match bp.spec_watchpoint() {
                        Some((access, _)) => Some(access.spec_name()),
                        None => None,
                    },
                )))
            .push(("watch_length"@, Node::OptNum(
                    match bp.spec_watchpoint() {
                        Some((_, length)) => Some(length as u64),
                        None => None,
                    },
                ))),
    )
}

/// One code-breakpoint/data-watchpoint row; the `watch_*` fields are null for
/// code breakpoints.
pub fn breakpoint<E>(bp: &Breakpoint<E>) -> (r: View)
    ensures
        r.shape() == breakpoint_node(*bp),
{
    Fields::new()
        .with("id", View::Num(bp.id as u64))
        .with("address", View::Hex(bp.address.0))
        .with("enabled", View::Bool(bp.enabled))
        .with("symbol", opt_text(&bp.symbol))
        .with("scope", View::Str(bp.scope.label()))
        .with("condition", opt_text(&bp.condition))
        .with("temporary", View::Bool(bp.temporary))
        .with(
            "watch_access",
            View::OptStr(
                match bp.watch_access_name() {
                    Some(name) => Some(text(name)),
                    None => None,
                },
            ),
        )
        .with(
            "watch_length",
            View::OptNum(
                match bp.watch_length() {
                    Some(length) => Some(length as u64),
                    None => None,
                },
            ),
        )
        .done()
}

} // verus!
