//! The order document and its parts.
//!
//! Each type has a view: the same record as plain mathematical data, strings
//! as sequences of characters. Two documents are the same document exactly
//! when their views are equal; every contract of this crate speaks of views.

use vstd::prelude::*;

verus! {

/// Where an order goes, and to whom.
#[derive(Debug, PartialEq, Eq)]
pub struct Delivery {
    pub name: String,
    pub phone: String,
    pub zip: String,
    pub city: String,
    pub address: String,
    pub region: String,
    pub email: String,
}

/// A [`Delivery`] as plain mathematical data.
pub struct DeliveryView {
    pub name: Seq<char>,
    pub phone: Seq<char>,
    pub zip: Seq<char>,
    pub city: Seq<char>,
    pub address: Seq<char>,
    pub region: Seq<char>,
    pub email: Seq<char>,
}

impl View for Delivery {
    type V = DeliveryView;

    open spec fn view(&self) -> DeliveryView {
        DeliveryView {
            name: self.name@,
            phone: self.phone@,
            zip: self.zip@,
            city: self.city@,
            address: self.address@,
            region: self.region@,
            email: self.email@,
        }
    }
}

impl DeepView for Delivery {
    type V = DeliveryView;

    open spec fn deep_view(&self) -> DeliveryView {
        self@
    }
}

impl Clone for Delivery {
    /// A copy that is the same document: its view is that of `self`.
    fn clone(&self) -> (copy: Self)
        ensures
            copy@ == self@,
    {
        Delivery {
            name: self.name.clone(),
            phone: self.phone.clone(),
            zip: self.zip.clone(),
            city: self.city.clone(),
            address: self.address.clone(),
            region: self.region.clone(),
            email: self.email.clone(),
        }
    }
}

/// How an order was paid.
#[derive(Debug, PartialEq, Eq)]
pub struct Payment {
    pub transaction: String,
    pub request_id: String,
    pub currency: String,
    pub provider: String,
    pub amount: i32,
    pub payment_dt: i64,
    pub bank: String,
    pub delivery_cost: i32,
    pub goods_total: i32,
    pub custom_fee: i32,
}

/// A [`Payment`] as plain mathematical data.
pub struct PaymentView {
    pub transaction: Seq<char>,
    pub request_id: Seq<char>,
    pub currency: Seq<char>,
    pub provider: Seq<char>,
    pub amount: i32,
    pub payment_dt: i64,
    pub bank: Seq<char>,
    pub delivery_cost: i32,
    pub goods_total: i32,
    pub custom_fee: i32,
}

impl View for Payment {
    type V = PaymentView;

    open spec fn view(&self) -> PaymentView {
        PaymentView {
            transaction: self.transaction@,
            request_id: self.request_id@,
            currency: self.currency@,
            provider: self.provider@,
            amount: self.amount,
            payment_dt: self.payment_dt,
            bank: self.bank@,
            delivery_cost: self.delivery_cost,
            goods_total: self.goods_total,
            custom_fee: self.custom_fee,
        }
    }
}

impl DeepView for Payment {
    type V = PaymentView;

    open spec fn deep_view(&self) -> PaymentView {
        self@
    }
}

impl Clone for Payment {
    /// A copy that is the same document: its view is that of `self`.
    fn clone(&self) -> (copy: Self)
        ensures
            copy@ == self@,
    {
        Payment {
            transaction: self.transaction.clone(),
            request_id: self.request_id.clone(),
            currency: self.currency.clone(),
            provider: self.provider.clone(),
            amount: self.amount,
            payment_dt: self.payment_dt,
            bank: self.bank.clone(),
            delivery_cost: self.delivery_cost,
            goods_total: self.goods_total,
            custom_fee: self.custom_fee,
        }
    }
}

/// One line of an order.
#[derive(Debug, PartialEq, Eq)]
pub struct Item {
    pub chrt_id: i32,
    pub track_number: String,
    pub price: i32,
    pub rid: String,
    pub name: String,
    pub sale: i32,
    pub size: String,
    pub total_price: i32,
    pub nm_id: i32,
    pub brand: String,
    pub status: i32,
}

/// An [`Item`] as plain mathematical data.
pub struct ItemView {
    pub chrt_id: i32,
    pub track_number: Seq<char>,
    pub price: i32,
    pub rid: Seq<char>,
    pub name: Seq<char>,
    pub sale: i32,
    pub size: Seq<char>,
    pub total_price: i32,
    pub nm_id: i32,
    pub brand: Seq<char>,
    pub status: i32,
}

impl View for Item {
    type V = ItemView;

    open spec fn view(&self) -> ItemView {
        ItemView {
            chrt_id: self.chrt_id,
            track_number: self.track_number@,
            price: self.price,
            rid: self.rid@,
            name: self.name@,
            sale: self.sale,
            size: self.size@,
            total_price: self.total_price,
            nm_id: self.nm_id,
            brand: self.brand@,
            status: self.status,
        }
    }
}

impl DeepView for Item {
    type V = ItemView;

    open spec fn deep_view(&self) -> ItemView {
        self@
    }
}

impl Clone for Item {
    /// A copy that is the same document: its view is that of `self`.
    fn clone(&self) -> (copy: Self)
        ensures
            copy@ == self@,
    {
        Item {
            chrt_id: self.chrt_id,
            track_number: self.track_number.clone(),
            price: self.price,
            rid: self.rid.clone(),
            name: self.name.clone(),
            sale: self.sale,
            size: self.size.clone(),
            total_price: self.total_price,
            nm_id: self.nm_id,
            brand: self.brand.clone(),
            status: self.status,
        }
    }
}

/// An order with all it owns: one delivery, one payment, and its items in
/// the order in which they were given. `order_uid` identifies it.
#[derive(Debug, PartialEq, Eq)]
pub struct Order {
    pub order_uid: String,
    pub track_number: String,
    pub entry: String,
    pub delivery: Delivery,
    pub payment: Payment,
    pub items: Vec<Item>,
    pub locale: String,
    pub internal_signature: String,
    pub customer_id: String,
    pub delivery_service: String,
    pub shardkey: String,
    pub sm_id: i32,
    pub date_created: String,
    pub oof_shard: String,
}

/// An [`Order`] as plain mathematical data.
pub struct OrderView {
    pub order_uid: Seq<char>,
    pub track_number: Seq<char>,
    pub entry: Seq<char>,
    pub delivery: DeliveryView,
    pub payment: PaymentView,
    pub items: Seq<ItemView>,
    pub locale: Seq<char>,
    pub internal_signature: Seq<char>,
    pub customer_id: Seq<char>,
    pub delivery_service: Seq<char>,
    pub shardkey: Seq<char>,
    pub sm_id: i32,
    pub date_created: Seq<char>,
    pub oof_shard: Seq<char>,
}

impl View for Order {
    type V = OrderView;

    open spec fn view(&self) -> OrderView {
        OrderView {
            order_uid: self.order_uid@,
            track_number: self.track_number@,
            entry: self.entry@,
            delivery: self.delivery@,
            payment: self.payment@,
            items: self.items.deep_view(),
            locale: self.locale@,
            internal_signature: self.internal_signature@,
            customer_id: self.customer_id@,
            delivery_service: self.delivery_service@,
            shardkey: self.shardkey@,
            sm_id: self.sm_id,
            date_created: self.date_created@,
            oof_shard: self.oof_shard@,
        }
    }
}

impl DeepView for Order {
    type V = OrderView;

    open spec fn deep_view(&self) -> OrderView {
        self@
    }
}

impl Clone for Order {
    /// A copy that is the same document: its view is that of `self`.
    fn clone(&self) -> (copy: Self)
        ensures
            copy@ == self@,
    {
        Order {
            order_uid: self.order_uid.clone(),
            track_number: self.track_number.clone(),
            entry: self.entry.clone(),
            delivery: self.delivery.clone(),
            payment: self.payment.clone(),
            items: self.items.clone(),
            locale: self.locale.clone(),
            internal_signature: self.internal_signature.clone(),
            customer_id: self.customer_id.clone(),
            delivery_service: self.delivery_service.clone(),
            shardkey: self.shardkey.clone(),
            sm_id: self.sm_id,
            date_created: self.date_created.clone(),
            oof_shard: self.oof_shard.clone(),
        }
    }
}

} // verus!
