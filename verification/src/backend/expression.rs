//! The names of operations and the text of expressions.

use vstd::prelude::*;
use vstd::string::*;

use crate::ast::node::{Expression, ResultList, Value};
use crate::ast::operator::{
    BinOpKind, BinOpType, CmpOpKind, CmpOpType, LoadType, NumType, StoreType, UnOpKind, UnOpType, ValType,
};
use crate::backend::manager::ManagerView;
use crate::backend::manager::Manager;
use crate::text::{decimal, push_decimal, push_index, push_signed, push_successor, signed_decimal};

verus! {

impl NumType {
    /// The name of the type in the names of the runtime's functions.
    pub open spec fn name_text(self) -> Seq<char> {
        match self {
            NumType::I32 => "i32"@,
            NumType::I64 => "i64"@,
            NumType::F32 => "f32"@,
            NumType::F64 => "f64"@,
        }
    }

    /// The name of the type in the names of the runtime's functions.
    pub fn name(self) -> (s: &'static str)
        ensures
            s@ == self.name_text(),
    {
        match self {
            NumType::I32 => "i32",
            NumType::I64 => "i64",
            NumType::F32 => "f32",
            NumType::F64 => "f64",
        }
    }
}

impl UnOpKind {
    /// The name of the operation in the names of the runtime's functions.
    pub open spec fn name_text(self) -> Seq<char> {
        match self {
            UnOpKind::Clz => "clz"@,
            UnOpKind::Ctz => "ctz"@,
            UnOpKind::Popcnt => "popcnt"@,
            UnOpKind::Abs => "abs"@,
            UnOpKind::Neg => "neg"@,
            UnOpKind::Ceil => "ceil"@,
            UnOpKind::Floor => "floor"@,
            UnOpKind::Trunc => "trunc"@,
            UnOpKind::Nearest => "nearest"@,
            UnOpKind::Sqrt => "sqrt"@,
            UnOpKind::Wrap => "wrap"@,
            UnOpKind::TruncS => "trunc_s"@,
            UnOpKind::TruncU => "trunc_u"@,
            UnOpKind::SaturateS => "saturate_s"@,
            UnOpKind::SaturateU => "saturate_u"@,
            UnOpKind::ExtendS => "extend_s"@,
            UnOpKind::ExtendU => "extend_u"@,
            UnOpKind::Extend8S => "extend8_s"@,
            UnOpKind::Extend16S => "extend16_s"@,
            UnOpKind::Extend32S => "extend32_s"@,
            UnOpKind::ConvertS => "convert_s"@,
            UnOpKind::ConvertU => "convert_u"@,
            UnOpKind::Demote => "demote"@,
            UnOpKind::Promote => "promote"@,
            UnOpKind::Reinterpret => "reinterpret"@,
        }
    }

    /// The name of the operation in the names of the runtime's functions.
    pub fn name(self) -> (s: &'static str)
        ensures
            s@ == self.name_text(),
    {
        match self {
            UnOpKind::Clz => "clz",
            UnOpKind::Ctz => "ctz",
            UnOpKind::Popcnt => "popcnt",
            UnOpKind::Abs => "abs",
            UnOpKind::Neg => "neg",
            UnOpKind::Ceil => "ceil",
            UnOpKind::Floor => "floor",
            UnOpKind::Trunc => "trunc",
            UnOpKind::Nearest => "nearest",
            UnOpKind::Sqrt => "sqrt",
            UnOpKind::Wrap => "wrap",
            UnOpKind::TruncS => "trunc_s",
            UnOpKind::TruncU => "trunc_u",
            UnOpKind::SaturateS => "saturate_s",
            UnOpKind::SaturateU => "saturate_u",
            UnOpKind::ExtendS => "extend_s",
            UnOpKind::ExtendU => "extend_u",
            UnOpKind::Extend8S => "extend8_s",
            UnOpKind::Extend16S => "extend16_s",
            UnOpKind::Extend32S => "extend32_s",
            UnOpKind::ConvertS => "convert_s",
            UnOpKind::ConvertU => "convert_u",
            UnOpKind::Demote => "demote",
            UnOpKind::Promote => "promote",
            UnOpKind::Reinterpret => "reinterpret",
        }
    }
}

impl BinOpKind {
    /// The name of the operation in the names of the runtime's functions.
    pub open spec fn name_text(self) -> Seq<char> {
        match self {
            BinOpKind::Add => "add"@,
            BinOpKind::Sub => "sub"@,
            BinOpKind::Mul => "mul"@,
            BinOpKind::Div => "div"@,
            BinOpKind::DivS => "div_s"@,
            BinOpKind::DivU => "div_u"@,
            BinOpKind::RemS => "rem_s"@,
            BinOpKind::RemU => "rem_u"@,
            BinOpKind::And => "band"@,
            BinOpKind::Or => "bor"@,
            BinOpKind::Xor => "bxor"@,
            BinOpKind::Shl => "shl"@,
            BinOpKind::ShrS => "shr_s"@,
            BinOpKind::ShrU => "shr_u"@,
            BinOpKind::Rotl => "rotl"@,
            BinOpKind::Rotr => "rotr"@,
            BinOpKind::Min => "min"@,
            BinOpKind::Max => "max"@,
            BinOpKind::Copysign => "copysign"@,
        }
    }

    /// The name of the operation in the names of the runtime's functions.
    pub fn name(self) -> (s: &'static str)
        ensures
            s@ == self.name_text(),
    {
        match self {
            BinOpKind::Add => "add",
            BinOpKind::Sub => "sub",
            BinOpKind::Mul => "mul",
            BinOpKind::Div => "div",
            BinOpKind::DivS => "div_s",
            BinOpKind::DivU => "div_u",
            BinOpKind::RemS => "rem_s",
            BinOpKind::RemU => "rem_u",
            BinOpKind::And => "band",
            BinOpKind::Or => "bor",
            BinOpKind::Xor => "bxor",
            BinOpKind::Shl => "shl",
            BinOpKind::ShrS => "shr_s",
            BinOpKind::ShrU => "shr_u",
            BinOpKind::Rotl => "rotl",
            BinOpKind::Rotr => "rotr",
            BinOpKind::Min => "min",
            BinOpKind::Max => "max",
            BinOpKind::Copysign => "copysign",
        }
    }
}

impl CmpOpKind {
    /// The name of the comparison in the names of the runtime's functions.
    pub open spec fn name_text(self) -> Seq<char> {
        match self {
            CmpOpKind::Eq => "eq"@,
            CmpOpKind::Ne => "ne"@,
            CmpOpKind::Lt => "lt"@,
            CmpOpKind::Gt => "gt"@,
            CmpOpKind::Le => "le"@,
            CmpOpKind::Ge => "ge"@,
            CmpOpKind::LtS => "lt_s"@,
            CmpOpKind::LtU => "lt_u"@,
            CmpOpKind::GtS => "gt_s"@,
            CmpOpKind::GtU => "gt_u"@,
            CmpOpKind::LeS => "le_s"@,
            CmpOpKind::LeU => "le_u"@,
            CmpOpKind::GeS => "ge_s"@,
            CmpOpKind::GeU => "ge_u"@,
        }
    }

    /// The name of the comparison in the names of the runtime's functions.
    pub fn name(self) -> (s: &'static str)
        ensures
            s@ == self.name_text(),
    {
        match self {
            CmpOpKind::Eq => "eq",
            CmpOpKind::Ne => "ne",
            CmpOpKind::Lt => "lt",
            CmpOpKind::Gt => "gt",
            CmpOpKind::Le => "le",
            CmpOpKind::Ge => "ge",
            CmpOpKind::LtS => "lt_s",
            CmpOpKind::LtU => "lt_u",
            CmpOpKind::GtS => "gt_s",
            CmpOpKind::GtU => "gt_u",
            CmpOpKind::LeS => "le_s",
            CmpOpKind::LeU => "le_u",
            CmpOpKind::GeS => "ge_s",
            CmpOpKind::GeU => "ge_u",
        }
    }
}

impl LoadType {
    /// The name of the load in the names of the runtime's functions.
    pub open spec fn name_text(self) -> Seq<char> {
        match self {
            LoadType::I32 => "i32"@,
            LoadType::I64 => "i64"@,
            LoadType::F32 => "f32"@,
            LoadType::F64 => "f64"@,
            LoadType::I32_I8 => "i32_i8"@,
            LoadType::I32_U8 => "i32_u8"@,
            LoadType::I32_I16 => "i32_i16"@,
            LoadType::I32_U16 => "i32_u16"@,
            LoadType::I64_I8 => "i64_i8"@,
            LoadType::I64_U8 => "i64_u8"@,
            LoadType::I64_I16 => "i64_i16"@,
            LoadType::I64_U16 => "i64_u16"@,
            LoadType::I64_I32 => "i64_i32"@,
            LoadType::I64_U32 => "i64_u32"@,
        }
    }

    /// The name of the load in the names of the runtime's functions.
    pub fn name(self) -> (s: &'static str)
        ensures
            s@ == self.name_text(),
    {
        match self {
            LoadType::I32 => "i32",
            LoadType::I64 => "i64",
            LoadType::F32 => "f32",
            LoadType::F64 => "f64",
            LoadType::I32_I8 => "i32_i8",
            LoadType::I32_U8 => "i32_u8",
            LoadType::I32_I16 => "i32_i16",
            LoadType::I32_U16 => "i32_u16",
            LoadType::I64_I8 => "i64_i8",
            LoadType::I64_U8 => "i64_u8",
            LoadType::I64_I16 => "i64_i16",
            LoadType::I64_U16 => "i64_u16",
            LoadType::I64_I32 => "i64_i32",
            LoadType::I64_U32 => "i64_u32",
        }
    }
}

impl StoreType {
    /// The name of the store in the names of the runtime's functions.
    pub open spec fn name_text(self) -> Seq<char> {
        match self {
            StoreType::I32 => "i32"@,
            StoreType::I64 => "i64"@,
            StoreType::F32 => "f32"@,
            StoreType::F64 => "f64"@,
            StoreType::I32_N8 => "i32_n8"@,
            StoreType::I32_N16 => "i32_n16"@,
            StoreType::I64_N8 => "i64_n8"@,
            StoreType::I64_N16 => "i64_n16"@,
            StoreType::I64_N32 => "i64_n32"@,
        }
    }

    /// The name of the store in the names of the runtime's functions.
    pub fn name(self) -> (s: &'static str)
        ensures
            s@ == self.name_text(),
    {
        match self {
            StoreType::I32 => "i32",
            StoreType::I64 => "i64",
            StoreType::F32 => "f32",
            StoreType::F64 => "f64",
            StoreType::I32_N8 => "i32_n8",
            StoreType::I32_N16 => "i32_n16",
            StoreType::I64_N8 => "i64_n8",
            StoreType::I64_N16 => "i64_n16",
            StoreType::I64_N32 => "i64_n32",
        }
    }
}


/// `w` followed by the name of temporary `var`: a variable of its own, or
/// an entry of the spill table.
pub open spec fn temporary_out(w: Seq<char>, var: usize, m: ManagerView) -> Seq<char> {
    if var < m.num_temp {
        w + "reg_"@ + decimal(var as nat)
    } else {
        w + "reg_spill["@ + decimal((var - m.num_temp + 1) as nat) + "]"@
    }
}

/// `w` followed by the name of local `var`: a variable of its own, or an
/// entry of the spill table.
pub open spec fn local_out(w: Seq<char>, var: usize, m: ManagerView) -> Seq<char> {
    if var < m.num_local {
        w + "loc_"@ + decimal(var as nat)
    } else {
        w + "loc_spill["@ + decimal((var - m.num_local + 1) as nat) + "]"@
    }
}

/// The low half of a 64-bit pattern.
pub open spec fn low_half(bits: u64) -> nat {
    (bits % 0x1_0000_0000) as nat
}

/// The high half of a 64-bit pattern.
pub open spec fn high_half(bits: u64) -> nat {
    (bits / 0x1_0000_0000) as nat
}

/// `w` followed by the text of a constant. A 32-bit integer is written
/// out; the others are handed to the runtime as one or two 32-bit halves
/// of their pattern.
pub open spec fn value_out(w: Seq<char>, v: Value) -> Seq<char> {
    match v {
        Value::I32(i) => w + signed_decimal(i as int),
        Value::I64(i) => w + "rt_i64_from_u32("@ + decimal(low_half(i as u64)) + ", "@ + decimal(
            high_half(i as u64),
        ) + ")"@,
        Value::F32(bits) => w + "rt_f32_from_bits("@ + decimal(bits as nat) + ")"@,
        Value::F64(bits) => w + "rt_f64_from_bits("@ + decimal(low_half(bits)) + ", "@ + decimal(
            high_half(bits),
        ) + ")"@,
    }
}

/// `w` followed by the constant offset of a pointer, if it is not zero.
pub open spec fn offset_out(w: Seq<char>, offset: usize) -> Seq<char> {
    if offset != 0 {
        w + " + "@ + decimal(offset as nat)
    } else {
        w
    }
}

/// `w` followed by the text of an expression.
pub open spec fn expression_out(w: Seq<char>, e: Expression, m: ManagerView) -> Seq<char>
    decreases e, 1nat,
{
    match e {
        Expression::Select(s) => {
            let w = condition_out(w + "(if "@, *s.condition, m);
            let w = expression_out(w + " then "@, *s.on_true, m);
            let w = expression_out(w + " else "@, *s.on_false, m);
            w + ")"@
        },
        Expression::GetTemporary(t) => temporary_out(w, t.var, m),
        Expression::GetLocal(l) => local_out(w, l.var, m),
        Expression::GetGlobal(g) => w + "GLOBAL_LIST["@ + decimal(g.var as nat) + "].value"@,
        Expression::LoadAt(l) => {
            let w = w + "rt_load_"@ + l.load_type.name_text() + "(memory_at_"@ + decimal(l.memory as nat)
                + ", "@;
            let w = expression_out(w, *l.pointer, m);
            offset_out(w, l.offset) + ")"@
        },
        Expression::MemorySize(s) => w + "rt_allocator_size(memory_at_"@ + decimal(s.memory as nat) + ")"@,
        Expression::Value(v) => value_out(w, v),
        Expression::UnOp(o) => {
            let w = w + "rt_"@ + o.op_type.kind.name_text() + "_"@ + o.op_type.result.name_text() + "_"@
                + o.op_type.operand.name_text() + "("@;
            expression_out(w, *o.rhs, m) + ")"@
        },
        Expression::BinOp(o) => {
            let w = w + "rt_"@ + o.op_type.kind.name_text() + "_"@ + o.op_type.ty.name_text() + "("@;
            let w = expression_out(w, *o.lhs, m);
            expression_out(w + ", "@, *o.rhs, m) + ")"@
        },
        Expression::CmpOp(o) => comparison_out(w + "(if "@, e, m) + " then 1 else 0)"@,
    }
}

/// `w` followed by the text of a comparison as a truth value; for an
/// expression that is no comparison, `w`.
pub open spec fn comparison_out(w: Seq<char>, e: Expression, m: ManagerView) -> Seq<char>
    decreases e, 0nat,
{
    match e {
        Expression::CmpOp(o) => {
            let w = w + "rt_"@ + o.op_type.kind.name_text() + "_"@ + o.op_type.ty.name_text() + "("@;
            let w = expression_out(w, *o.lhs, m);
            expression_out(w + ", "@, *o.rhs, m) + ")"@
        },
        _ => w,
    }
}

/// `w` followed by the text of an expression where a truth value is
/// wanted: a comparison as it is, anything else compared with zero.
pub open spec fn condition_out(w: Seq<char>, e: Expression, m: ManagerView) -> Seq<char>
    decreases e, 2nat,
{
    match e {
        Expression::CmpOp(_) => comparison_out(w, e, m),
        _ => expression_out(w, e, m) + " ~= 0"@,
    }
}

/// `w` followed by the text of the expressions of `list`, separated by
/// commas.
pub open spec fn list_out(w: Seq<char>, list: Seq<Expression>, m: ManagerView) -> Seq<char>
    decreases list.len(),
{
    if list.len() == 0 {
        w
    } else {
        let w = list_out(w, list.drop_last(), m);
        expression_out(
            if list.len() > 1 {
                w + ", "@
            } else {
                w
            },
            list.last(),
            m,
        )
    }
}

/// `w` followed by the names of the temporaries `start..end`, separated
/// by commas.
pub open spec fn results_out(w: Seq<char>, start: int, end: int, m: ManagerView) -> Seq<char>
    decreases end - start,
{
    if start >= end {
        w
    } else {
        let w = results_out(w, start, end - 1, m);
        temporary_out(
            if start < end - 1 {
                w + ", "@
            } else {
                w
            },
            (end - 1) as usize,
            m,
        )
    }
}

/// Appends the name of temporary `var`.
pub fn write_temporary(var: usize, mng: &Manager, w: &mut String)
    ensures
        final(w)@ == temporary_out(old(w)@, var, mng@),
{
    if var < mng.num_temp {
        w.append("reg_");
        push_index(w, var);
    } else {
        w.append("reg_spill[");
        push_successor(w, var - mng.num_temp);
        w.append("]");
    }
}

/// Appends the name of local `var`.
pub fn write_local(var: usize, mng: &Manager, w: &mut String)
    ensures
        final(w)@ == local_out(old(w)@, var, mng@),
{
    if var < mng.num_local {
        w.append("loc_");
        push_index(w, var);
    } else {
        w.append("loc_spill[");
        push_successor(w, var - mng.num_local);
        w.append("]");
    }
}

/// Appends the text of a constant.
pub fn write_value(v: Value, w: &mut String)
    ensures
        final(w)@ == value_out(old(w)@, v),
{
    match v {
        Value::I32(i) => push_signed(w, i as i64),
        Value::I64(i) => {
            let bits = i as u64;
            w.append("rt_i64_from_u32(");
            push_decimal(w, bits % 0x1_0000_0000);
            w.append(", ");
            push_decimal(w, bits / 0x1_0000_0000);
            w.append(")");
        },
        Value::F32(bits) => {
            w.append("rt_f32_from_bits(");
            push_decimal(w, bits as u64);
            w.append(")");
        },
        Value::F64(bits) => {
            w.append("rt_f64_from_bits(");
            push_decimal(w, bits % 0x1_0000_0000);
            w.append(", ");
            push_decimal(w, bits / 0x1_0000_0000);
            w.append(")");
        },
    }
}

/// Appends the constant offset of a pointer, if it is not zero.
pub fn write_offset(offset: usize, w: &mut String)
    ensures
        final(w)@ == offset_out(old(w)@, offset),
{
    if offset != 0 {
        w.append(" + ");
        push_index(w, offset);
    }
}

/// Appends the text of an expression.
pub fn write_expression(e: &Expression, mng: &Manager, w: &mut String)
    ensures
        final(w)@ == expression_out(old(w)@, *e, mng@),
    decreases e, 1nat,
{
    match e {
        Expression::Select(s) => {
            w.append("(if ");
            write_condition(&s.condition, mng, w);
            w.append(" then ");
            write_expression(&s.on_true, mng, w);
            w.append(" else ");
            write_expression(&s.on_false, mng, w);
            w.append(")");
        },
        Expression::GetTemporary(t) => write_temporary(t.var, mng, w),
        Expression::GetLocal(l) => write_local(l.var, mng, w),
        Expression::GetGlobal(g) => {
            w.append("GLOBAL_LIST[");
            push_index(w, g.var);
            w.append("].value");
        },
        Expression::LoadAt(l) => {
            w.append("rt_load_");
            w.append(l.load_type.name());
            w.append("(memory_at_");
            push_index(w, l.memory);
            w.append(", ");
            write_expression(&l.pointer, mng, w);
            write_offset(l.offset, w);
            w.append(")");
        },
        Expression::MemorySize(s) => {
            w.append("rt_allocator_size(memory_at_");
            push_index(w, s.memory);
            w.append(")");
        },
        Expression::Value(v) => write_value(*v, w),
        Expression::UnOp(o) => {
            w.append("rt_");
            w.append(o.op_type.kind.name());
            w.append("_");
            w.append(o.op_type.result.name());
            w.append("_");
            w.append(o.op_type.operand.name());
            w.append("(");
            write_expression(&o.rhs, mng, w);
            w.append(")");
        },
        Expression::BinOp(o) => {
            w.append("rt_");
            w.append(o.op_type.kind.name());
            w.append("_");
            w.append(o.op_type.ty.name());
            w.append("(");
            write_expression(&o.lhs, mng, w);
            w.append(", ");
            write_expression(&o.rhs, mng, w);
            w.append(")");
        },
        Expression::CmpOp(_) => {
            w.append("(if ");
            write_comparison(e, mng, w);
            w.append(" then 1 else 0)");
        },
    }
}

/// Appends the text of a comparison as a truth value.
pub fn write_comparison(e: &Expression, mng: &Manager, w: &mut String)
    ensures
        final(w)@ == comparison_out(old(w)@, *e, mng@),
    decreases e, 0nat,
{
    match e {
        Expression::CmpOp(o) => {
            w.append("rt_");
            w.append(o.op_type.kind.name());
            w.append("_");
            w.append(o.op_type.ty.name());
            w.append("(");
            write_expression(&o.lhs, mng, w);
            w.append(", ");
            write_expression(&o.rhs, mng, w);
            w.append(")");
        },
        _ => {},
    }
}

/// Appends the text of an expression where a truth value is wanted.
pub fn write_condition(e: &Expression, mng: &Manager, w: &mut String)
    ensures
        final(w)@ == condition_out(old(w)@, *e, mng@),
    decreases e, 2nat,
{
    match e {
        Expression::CmpOp(_) => write_comparison(e, mng, w),
        _ => {
            write_expression(e, mng, w);
            w.append(" ~= 0");
        },
    }
}

/// Appends the text of the expressions of `list`, separated by commas.
pub fn write_list(list: &Vec<Expression>, mng: &Manager, w: &mut String)
    ensures
        final(w)@ == list_out(old(w)@, list@, mng@),
{
    let mut i: usize = 0;
    assert(list@.take(0) =~= Seq::empty());
    while i < list.len()
        invariant
            i <= list.len(),
            w@ == list_out(old(w)@, list@.take(i as int), mng@),
        decreases list.len() - i,
    {
        if i > 0 {
            w.append(", ");
        }
        write_expression(&list[i], mng, w);
        assert(list@.take(i + 1).drop_last() =~= list@.take(i as int));
        assert(list@.take(i + 1).last() == list@[i as int]);
        i += 1;
    }
    assert(list@.take(i as int) =~= list@);
}

impl ResultList {
    /// Appends the names of the temporaries of the list, separated by
    /// commas.
    pub fn write(&self, mng: &Manager, w: &mut String)
        ensures
            final(w)@ == results_out(old(w)@, self.start as int, self.end as int, mng@),
    {
        if self.start >= self.end {
            return ;
        }
        let mut i: usize = self.start;
        while i < self.end
            invariant
                self.start <= i <= self.end,
                w@ == results_out(old(w)@, self.start as int, i as int, mng@),
            decreases self.end - i,
        {
            if i > self.start {
                w.append(", ");
            }
            write_temporary(i, mng, w);
            i += 1;
        }
    }
}

} // verus!
