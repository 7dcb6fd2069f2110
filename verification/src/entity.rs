//! The records that the tables hold.

use crate::table::{Listed, Owned, Row, TextColumn};
use vstd::prelude::*;

verus! {

/// A user: the owner at the end of every ownership chain.
#[derive(Debug, PartialEq, Eq)]
pub struct User {
    pub id: i32,
    pub username: String,
    /// The hash of the password, never the password.
    pub password: String,
    pub phone_number: String,
    pub create_at: i64,
}

/// A boss, owned by a user.
#[derive(Debug, PartialEq, Eq)]
pub struct Boss {
    pub id: i32,
    pub name: String,
    pub phone_number: String,
    pub description: Option<String>,
    pub address: Option<String>,
    pub create_at: i64,
    pub user_id: i32,
}

/// A staff member, owned by a user.
#[derive(Debug, PartialEq, Eq)]
pub struct Staff {
    pub id: i32,
    pub name: String,
    pub phone_number: String,
    pub description: Option<String>,
    pub create_at: i64,
    pub user_id: i32,
}

/// A clothing article, owned by a boss.
#[derive(Debug, PartialEq, Eq)]
pub struct Clothing {
    pub id: i32,
    pub name: String,
    pub description: Option<String>,
    pub price: u32,
    pub image: Option<String>,
    pub create_at: i64,
    pub boss_id: i32,
}

/// A procurement without its items, owned by a user.
#[derive(Debug, PartialEq, Eq)]
pub struct ProcurementRecord {
    pub id: i32,
    pub description: Option<String>,
    pub create_at: i64,
    pub user_id: i32,
}

/// One line of a procurement.
#[derive(Debug, PartialEq, Eq)]
pub struct ProcurementItem {
    pub id: i32,
    pub amount: u32,
    pub procurement_id: i32,
    pub clothing_id: i32,
}

/// A shipment without its items, owned by a user.
#[derive(Debug, PartialEq, Eq)]
pub struct ShipmentRecord {
    pub id: i32,
    pub description: Option<String>,
    pub create_at: i64,
    pub user_id: i32,
}

/// One line of a shipment.
#[derive(Debug, PartialEq, Eq)]
pub struct ShipmentItem {
    pub id: i32,
    pub amount: u32,
    pub shipment_id: i32,
    pub clothing_id: i32,
}

/// A production batch without its items, owned by a staff member.
#[derive(Debug, PartialEq, Eq)]
pub struct ProductionRecord {
    pub id: i32,
    pub description: Option<String>,
    pub create_at: i64,
    pub staff_id: i32,
    /// The sum of the items' salaries.
    pub total_salary: u128,
    pub settled: bool,
}

/// One line of a production batch.
#[derive(Debug, PartialEq, Eq)]
pub struct ProductionItem {
    pub id: i32,
    pub unit_price: u32,
    pub count: u32,
    pub production_id: i32,
    pub clothing_id: i32,
    /// `unit_price * count`.
    pub salary: u64,
}

/// What an update does to a column that may be empty.
#[derive(Debug, PartialEq, Eq)]
pub enum Patch<T> {
    /// The request does not name the column: it keeps its value.
    Absent,
    /// The request names the column with null: it is emptied.
    Null,
    /// The request gives a value: the column takes it.
    Value(T),
}

/// The column after `patch`, where it held `old`.
pub open spec fn patched<T>(old: Option<T>, patch: Patch<T>) -> Option<T> {
    match patch {
        Patch::Absent => old,
        Patch::Null => None,
        Patch::Value(v) => Some(v),
    }
}

/// The column after an update that may replace it, where it held `old`.
pub open spec fn replaced<T>(old: T, new: Option<T>) -> T {
    match new {
        Some(v) => v,
        None => old,
    }
}

/// A copy of the text.
pub fn copy_text(text: &Option<String>) -> (copy: Option<String>)
    ensures
        copy == *text,
{
    match text {
        Some(t) => Some(t.clone()),
        None => None,
    }
}

/// The column after `patch`, where it held `old`.
pub fn apply_patch(old: Option<String>, patch: Patch<String>) -> (new: Option<String>)
    ensures
        new == patched(old, patch),
{
    match patch {
        Patch::Absent => old,
        Patch::Null => None,
        Patch::Value(v) => Some(v),
    }
}

/// The column after an update that may replace it, where it held `old`.
pub fn apply_replace(old: String, new: Option<String>) -> (r: String)
    ensures
        r == replaced(old, new),
{
    match new {
        Some(v) => v,
        None => old,
    }
}

impl Clone for User {
    fn clone(&self) -> (copy: Self)
        ensures
            copy == *self,
    {
        User {
            id: self.id,
            username: self.username.clone(),
            password: self.password.clone(),
            phone_number: self.phone_number.clone(),
            create_at: self.create_at,
        }
    }
}

impl Row for User {
    open spec fn key(&self) -> i32 {
        self.id
    }

    fn id(&self) -> i32 {
        self.id
    }

    fn duplicate(&self) -> Self {
        self.clone()
    }
}

impl Clone for Boss {
    fn clone(&self) -> (copy: Self)
        ensures
            copy == *self,
    {
        Boss {
            id: self.id,
            name: self.name.clone(),
            phone_number: self.phone_number.clone(),
            description: copy_text(&self.description),
            address: copy_text(&self.address),
            create_at: self.create_at,
            user_id: self.user_id,
        }
    }
}

impl Row for Boss {
    open spec fn key(&self) -> i32 {
        self.id
    }

    fn id(&self) -> i32 {
        self.id
    }

    fn duplicate(&self) -> Self {
        self.clone()
    }
}

impl Owned for Boss {
    open spec fn parent(&self) -> i32 {
        self.user_id
    }

    fn parent_id(&self) -> i32 {
        self.user_id
    }
}

impl Listed for Boss {
    open spec fn stamp(&self) -> i64 {
        self.create_at
    }

    fn created_at(&self) -> i64 {
        self.create_at
    }

    open spec fn text(&self, column: TextColumn) -> Option<String> {
        match column {
            TextColumn::Name => Some(self.name),
            TextColumn::Description => self.description,
        }
    }

    fn text_in(&self, column: TextColumn) -> Option<&String> {
        match column {
            TextColumn::Name => Some(&self.name),
            TextColumn::Description => self.description.as_ref(),
        }
    }

    open spec fn searched() -> Seq<TextColumn> {
        seq![TextColumn::Name, TextColumn::Description]
    }

    fn searched_columns() -> Vec<TextColumn> {
        vec![TextColumn::Name, TextColumn::Description]
    }
}

impl Clone for Staff {
    fn clone(&self) -> (copy: Self)
        ensures
            copy == *self,
    {
        Staff {
            id: self.id,
            name: self.name.clone(),
            phone_number: self.phone_number.clone(),
            description: copy_text(&self.description),
            create_at: self.create_at,
            user_id: self.user_id,
        }
    }
}

impl Row for Staff {
    open spec fn key(&self) -> i32 {
        self.id
    }

    fn id(&self) -> i32 {
        self.id
    }

    fn duplicate(&self) -> Self {
        self.clone()
    }
}

impl Owned for Staff {
    open spec fn parent(&self) -> i32 {
        self.user_id
    }

    fn parent_id(&self) -> i32 {
        self.user_id
    }
}

impl Listed for Staff {
    open spec fn stamp(&self) -> i64 {
        self.create_at
    }

    fn created_at(&self) -> i64 {
        self.create_at
    }

    open spec fn text(&self, column: TextColumn) -> Option<String> {
        match column {
            TextColumn::Name => Some(self.name),
            TextColumn::Description => self.description,
        }
    }

    fn text_in(&self, column: TextColumn) -> Option<&String> {
        match column {
            TextColumn::Name => Some(&self.name),
            TextColumn::Description => self.description.as_ref(),
        }
    }

    open spec fn searched() -> Seq<TextColumn> {
        seq![TextColumn::Name, TextColumn::Description]
    }

    fn searched_columns() -> Vec<TextColumn> {
        vec![TextColumn::Name, TextColumn::Description]
    }
}

impl Clone for Clothing {
    fn clone(&self) -> (copy: Self)
        ensures
            copy == *self,
    {
        Clothing {
            id: self.id,
            name: self.name.clone(),
            description: copy_text(&self.description),
            price: self.price,
            image: copy_text(&self.image),
            create_at: self.create_at,
            boss_id: self.boss_id,
        }
    }
}

impl Row for Clothing {
    open spec fn key(&self) -> i32 {
        self.id
    }

    fn id(&self) -> i32 {
        self.id
    }

    fn duplicate(&self) -> Self {
        self.clone()
    }
}

impl Owned for Clothing {
    open spec fn parent(&self) -> i32 {
        self.boss_id
    }

    fn parent_id(&self) -> i32 {
        self.boss_id
    }
}

impl Listed for Clothing {
    open spec fn stamp(&self) -> i64 {
        self.create_at
    }

    fn created_at(&self) -> i64 {
        self.create_at
    }

    open spec fn text(&self, column: TextColumn) -> Option<String> {
        match column {
            TextColumn::Name => Some(self.name),
            TextColumn::Description => self.description,
        }
    }

    fn text_in(&self, column: TextColumn) -> Option<&String> {
        match column {
            TextColumn::Name => Some(&self.name),
            TextColumn::Description => self.description.as_ref(),
        }
    }

    open spec fn searched() -> Seq<TextColumn> {
        seq![TextColumn::Name, TextColumn::Description]
    }

    fn searched_columns() -> Vec<TextColumn> {
        vec![TextColumn::Name, TextColumn::Description]
    }
}

impl Clone for ProcurementRecord {
    fn clone(&self) -> (copy: Self)
        ensures
            copy == *self,
    {
        ProcurementRecord {
            id: self.id,
            description: copy_text(&self.description),
            create_at: self.create_at,
            user_id: self.user_id,
        }
    }
}

impl Row for ProcurementRecord {
    open spec fn key(&self) -> i32 {
        self.id
    }

    fn id(&self) -> i32 {
        self.id
    }

    fn duplicate(&self) -> Self {
        self.clone()
    }
}

impl Owned for ProcurementRecord {
    open spec fn parent(&self) -> i32 {
        self.user_id
    }

    fn parent_id(&self) -> i32 {
        self.user_id
    }
}

impl Listed for ProcurementRecord {
    open spec fn stamp(&self) -> i64 {
        self.create_at
    }

    fn created_at(&self) -> i64 {
        self.create_at
    }

    open spec fn text(&self, column: TextColumn) -> Option<String> {
        match column {
            TextColumn::Name => None,
            TextColumn::Description => self.description,
        }
    }

    fn text_in(&self, column: TextColumn) -> Option<&String> {
        match column {
            TextColumn::Name => None,
            TextColumn::Description => self.description.as_ref(),
        }
    }

    open spec fn searched() -> Seq<TextColumn> {
        seq![TextColumn::Description]
    }

    fn searched_columns() -> Vec<TextColumn> {
        vec![TextColumn::Description]
    }
}

impl Clone for ProcurementItem {
    fn clone(&self) -> (copy: Self)
        ensures
            copy == *self,
    {
        ProcurementItem {
            id: self.id,
            amount: self.amount,
            procurement_id: self.procurement_id,
            clothing_id: self.clothing_id,
        }
    }
}

impl Row for ProcurementItem {
    open spec fn key(&self) -> i32 {
        self.id
    }

    fn id(&self) -> i32 {
        self.id
    }

    fn duplicate(&self) -> Self {
        self.clone()
    }
}

impl Owned for ProcurementItem {
    open spec fn parent(&self) -> i32 {
        self.procurement_id
    }

    fn parent_id(&self) -> i32 {
        self.procurement_id
    }
}

impl Clone for ShipmentRecord {
    fn clone(&self) -> (copy: Self)
        ensures
            copy == *self,
    {
        ShipmentRecord {
            id: self.id,
            description: copy_text(&self.description),
            create_at: self.create_at,
            user_id: self.user_id,
        }
    }
}

impl Row for ShipmentRecord {
    open spec fn key(&self) -> i32 {
        self.id
    }

    fn id(&self) -> i32 {
        self.id
    }

    fn duplicate(&self) -> Self {
        self.clone()
    }
}

impl Owned for ShipmentRecord {
    open spec fn parent(&self) -> i32 {
        self.user_id
    }

    fn parent_id(&self) -> i32 {
        self.user_id
    }
}

impl Listed for ShipmentRecord {
    open spec fn stamp(&self) -> i64 {
        self.create_at
    }

    fn created_at(&self) -> i64 {
        self.create_at
    }

    open spec fn text(&self, column: TextColumn) -> Option<String> {
        match column {
            TextColumn::Name => None,
            TextColumn::Description => self.description,
        }
    }

    fn text_in(&self, column: TextColumn) -> Option<&String> {
        match column {
            TextColumn::Name => None,
            TextColumn::Description => self.description.as_ref(),
        }
    }

    open spec fn searched() -> Seq<TextColumn> {
        seq![TextColumn::Description]
    }

    fn searched_columns() -> Vec<TextColumn> {
        vec![TextColumn::Description]
    }
}

impl Clone for ShipmentItem {
    fn clone(&self) -> (copy: Self)
        ensures
            copy == *self,
    {
        ShipmentItem {
            id: self.id,
            amount: self.amount,
            shipment_id: self.shipment_id,
            clothing_id: self.clothing_id,
        }
    }
}

impl Row for ShipmentItem {
    open spec fn key(&self) -> i32 {
        self.id
    }

    fn id(&self) -> i32 {
        self.id
    }

    fn duplicate(&self) -> Self {
        self.clone()
    }
}

impl Owned for ShipmentItem {
    open spec fn parent(&self) -> i32 {
        self.shipment_id
    }

    fn parent_id(&self) -> i32 {
        self.shipment_id
    }
}

impl Clone for ProductionRecord {
    fn clone(&self) -> (copy: Self)
        ensures
            copy == *self,
    {
        ProductionRecord {
            id: self.id,
            description: copy_text(&self.description),
            create_at: self.create_at,
            staff_id: self.staff_id,
            total_salary: self.total_salary,
            settled: self.settled,
        }
    }
}

impl Row for ProductionRecord {
    open spec fn key(&self) -> i32 {
        self.id
    }

    fn id(&self) -> i32 {
        self.id
    }

    fn duplicate(&self) -> Self {
        self.clone()
    }
}

impl Owned for ProductionRecord {
    open spec fn parent(&self) -> i32 {
        self.staff_id
    }

    fn parent_id(&self) -> i32 {
        self.staff_id
    }
}

impl Listed for ProductionRecord {
    open spec fn stamp(&self) -> i64 {
        self.create_at
    }

    fn created_at(&self) -> i64 {
        self.create_at
    }

    open spec fn text(&self, column: TextColumn) -> Option<String> {
        match column {
            TextColumn::Name => None,
            TextColumn::Description => self.description,
        }
    }

    fn text_in(&self, column: TextColumn) -> Option<&String> {
        match column {
            TextColumn::Name => None,
            TextColumn::Description => self.description.as_ref(),
        }
    }

    open spec fn searched() -> Seq<TextColumn> {
        seq![TextColumn::Description]
    }

    fn searched_columns() -> Vec<TextColumn> {
        vec![TextColumn::Description]
    }
}

impl Clone for ProductionItem {
    fn clone(&self) -> (copy: Self)
        ensures
            copy == *self,
    {
        ProductionItem {
            id: self.id,
            unit_price: self.unit_price,
            count: self.count,
            production_id: self.production_id,
            clothing_id: self.clothing_id,
            salary: self.salary,
        }
    }
}

impl Row for ProductionItem {
    open spec fn key(&self) -> i32 {
        self.id
    }

    fn id(&self) -> i32 {
        self.id
    }

    fn duplicate(&self) -> Self {
        self.clone()
    }
}

impl Owned for ProductionItem {
    open spec fn parent(&self) -> i32 {
        self.production_id
    }

    fn parent_id(&self) -> i32 {
        self.production_id
    }
}

} // verus!
